//! The podcast record: the one entity the catalog persists, together with
//! its mathematical view.

use vstd::prelude::*;

verus! {

/// Mathematical view of a [`Podcast`] record: every field as a plain
/// spec-level value.
#[verifier::ext_equal]
pub ghost struct PodcastView {
    pub id: int,
    pub title: Seq<char>,
    pub url: Seq<char>,
    pub description: Seq<char>,
    pub enabled: bool,
    pub last_checked: int,
    pub image_url: Option<Seq<char>>,
    pub cache_key: Option<Seq<char>>,
}

/// One catalogued feed. `id` is assigned by the store at first insertion;
/// `url` is the natural key: the store keeps exactly one record per URL.
/// `last_checked` is a UTC timestamp in whole seconds since the Unix epoch.
#[derive(Debug)]
pub struct Podcast {
    pub id: i64,
    pub title: String,
    pub url: String,
    pub description: String,
    pub enabled: bool,
    pub last_checked: i64,
    pub image_url: Option<String>,
    pub cache_key: Option<String>,
}

impl View for Podcast {
    type V = PodcastView;

    open spec fn view(&self) -> PodcastView {
        PodcastView {
            id: self.id as int,
            title: self.title@,
            url: self.url@,
            description: self.description@,
            enabled: self.enabled,
            last_checked: self.last_checked as int,
            image_url: self.image_url.deep_view(),
            cache_key: self.cache_key.deep_view(),
        }
    }
}

impl DeepView for Podcast {
    type V = PodcastView;

    open spec fn deep_view(&self) -> PodcastView {
        self.view()
    }
}

/// Compares two optional strings by their contents.
pub fn opt_string_eq(a: &Option<String>, b: &Option<String>) -> (r: bool)
    ensures
        r == (a.deep_view() == b.deep_view()),
{
    match (a, b) {
        (Some(x), Some(y)) => *x == *y,
        (None, None) => true,
        _ => false,
    }
}

/// Clones an optional string, contents preserved.
pub fn opt_string_clone(a: &Option<String>) -> (r: Option<String>)
    ensures
        r == *a,
{
    match a {
        Some(x) => Some(x.clone()),
        None => None,
    }
}

impl Clone for Podcast {
    /// Cloning preserves every field.
    fn clone(&self) -> (res: Self)
        ensures
            res == *self,
    {
        Podcast {
            id: self.id,
            title: self.title.clone(),
            url: self.url.clone(),
            description: self.description.clone(),
            enabled: self.enabled,
            last_checked: self.last_checked,
            image_url: opt_string_clone(&self.image_url),
            cache_key: opt_string_clone(&self.cache_key),
        }
    }
}

impl vstd::std_specs::cmp::PartialEqSpecImpl for Podcast {
    open spec fn obeys_eq_spec() -> bool {
        true
    }

    open spec fn eq_spec(&self, o: &Podcast) -> bool {
        self@ == o@
    }
}

impl PartialEq for Podcast {
    fn eq(&self, o: &Podcast) -> (r: bool) {
        let r = self.id == o.id && self.title == o.title && self.url == o.url
            && self.description == o.description && self.enabled == o.enabled
            && self.last_checked == o.last_checked && opt_string_eq(&self.image_url, &o.image_url)
            && opt_string_eq(&self.cache_key, &o.cache_key);
        proof {
            if r {
                assert(self@ =~= o@);
            }
        }
        r
    }
}

impl Eq for Podcast {

}

} // verus!

//! The records of a collection page.
//!
//! A page is a JSON array of photo records. A record may carry members
//! that are not listed here; a listed member that is missing, or is of
//! another kind than listed, makes the record, and with it the page,
//! unreadable. Members typed `Option` may be missing or null. A record is an
//! object: an array or a text in its place is of the wrong kind.

use crate::json::lemma_find_skips_other_keys;
use crate::json::Json;
use crate::json::JsonTree;
use crate::text::same_text;
use vstd::prelude::*;

verus! {

/// Whether a topic's editors took a photo or turned it down. On the wire it
/// is the text `approved` or the text `rejected`, and nothing else.
#[derive(Debug, Clone, Copy, PartialEq, Eq, Structural)]
pub enum Status {
    Approved,
    Rejected,
}

impl Status {
    /// Whether `j` is one of the two texts.
    pub open spec fn accepts(j: JsonTree) -> bool {
        j == JsonTree::Text("approved"@) || j == JsonTree::Text("rejected"@)
    }

    /// Whether this status is the one that `j` spells.
    pub open spec fn mirrors(&self, j: JsonTree) -> bool {
        match self {
            Status::Approved => j == JsonTree::Text("approved"@),
            Status::Rejected => j == JsonTree::Text("rejected"@),
        }
    }

    /// Reads the status that `j` spells; `None` where `j` is not one.
    pub fn from_json(j: &Json) -> (r: Option<Status>)
        ensures
            r is Some <==> Status::accepts(j@),
            r matches Some(x) ==> x.mirrors(j@),
    {
        match j {
            Json::Text(s) => {
                if same_text(s.as_str(), "approved") {
                    Some(Status::Approved)
                } else if same_text(s.as_str(), "rejected") {
                    Some(Status::Rejected)
                } else {
                    None
                }
            },
            _ => None,
        }
    }

    /// Only what is accepted can be mirrored.
    pub proof fn lemma_mirrors_accepts(&self, j: JsonTree)
        requires
            self.mirrors(j),
        ensures
            Status::accepts(j),
    {
    }
}

/// The addresses of one photo in its several sizes.
#[derive(Debug)]
pub struct Urls {
    pub raw: String,
    pub full: String,
    pub regular: String,
    pub small: String,
    pub thumb: String,
    pub small_s3: String,
}

impl Urls {
    /// Whether `j` is an object that has every required member, each
    /// member that is there being of its kind.
    pub open spec fn accepts(j: JsonTree) -> bool {
        &&& j is Object
        &&& j.text("raw"@) is Some
        &&& j.text("full"@) is Some
        &&& j.text("regular"@) is Some
        &&& j.text("small"@) is Some
        &&& j.text("thumb"@) is Some
        &&& j.text("small_s3"@) is Some
    }

    /// Whether this record holds, member by member, what `j` holds.
    pub open spec fn mirrors(&self, j: JsonTree) -> bool {
        &&& j is Object
        &&& j.text("raw"@) == Some(self.raw@)
        &&& j.text("full"@) == Some(self.full@)
        &&& j.text("regular"@) == Some(self.regular@)
        &&& j.text("small"@) == Some(self.small@)
        &&& j.text("thumb"@) == Some(self.thumb@)
        &&& j.text("small_s3"@) == Some(self.small_s3@)
    }

    /// Reads the record that `j` holds; `None` where `j` is not one.
    pub fn from_json(j: &Json) -> (r: Option<Urls>)
        ensures
            r is Some <==> Urls::accepts(j@),
            r matches Some(x) ==> x.mirrors(j@),
    {
        if !j.is_object() {
            return None;
        }
        let raw = match j.text("raw") {
            Some(x) => x,
            None => {
                return None;
            },
        };
        let full = match j.text("full") {
            Some(x) => x,
            None => {
                return None;
            },
        };
        let regular = match j.text("regular") {
            Some(x) => x,
            None => {
                return None;
            },
        };
        let small = match j.text("small") {
            Some(x) => x,
            None => {
                return None;
            },
        };
        let thumb = match j.text("thumb") {
            Some(x) => x,
            None => {
                return None;
            },
        };
        let small_s3 = match j.text("small_s3") {
            Some(x) => x,
            None => {
                return None;
            },
        };
        Some(Urls { raw, full, regular, small, thumb, small_s3 })
    }

    /// Only what is accepted can be mirrored.
    pub proof fn lemma_mirrors_accepts(&self, j: JsonTree)
        requires
            self.mirrors(j),
        ensures
            Urls::accepts(j),
    {
    }

    /// A member that is not listed changes nothing: with it or without it,
    /// the object is accepted alike and mirrored alike.
    pub proof fn lemma_unlisted_member(
        &self,
        entries: Seq<(Seq<char>, JsonTree)>,
        i: int,
        extra: (Seq<char>, JsonTree),
    )
        requires
            0 <= i <= entries.len(),
            extra.0 != "raw"@,
            extra.0 != "full"@,
            extra.0 != "regular"@,
            extra.0 != "small"@,
            extra.0 != "thumb"@,
            extra.0 != "small_s3"@,
        ensures
            Urls::accepts(JsonTree::Object(entries.insert(i, extra))) == Urls::accepts(
                JsonTree::Object(entries),
            ),
            self.mirrors(JsonTree::Object(entries.insert(i, extra))) == self.mirrors(
                JsonTree::Object(entries),
            ),
    {
        lemma_find_skips_other_keys(entries, i, extra, "raw"@);
        lemma_find_skips_other_keys(entries, i, extra, "full"@);
        lemma_find_skips_other_keys(entries, i, extra, "regular"@);
        lemma_find_skips_other_keys(entries, i, extra, "small"@);
        lemma_find_skips_other_keys(entries, i, extra, "thumb"@);
        lemma_find_skips_other_keys(entries, i, extra, "small_s3"@);
    }
}

/// The links that belong to one photo.
#[derive(Debug)]
pub struct WelcomeLinks {
    /// The member `self`.
    pub links_self: String,
    pub html: String,
    pub download: String,
    pub download_location: String,
}

impl WelcomeLinks {
    /// Whether `j` is an object that has every required member, each
    /// member that is there being of its kind.
    pub open spec fn accepts(j: JsonTree) -> bool {
        &&& j is Object
        &&& j.text("self"@) is Some
        &&& j.text("html"@) is Some
        &&& j.text("download"@) is Some
        &&& j.text("download_location"@) is Some
    }

    /// Whether this record holds, member by member, what `j` holds.
    pub open spec fn mirrors(&self, j: JsonTree) -> bool {
        &&& j is Object
        &&& j.text("self"@) == Some(self.links_self@)
        &&& j.text("html"@) == Some(self.html@)
        &&& j.text("download"@) == Some(self.download@)
        &&& j.text("download_location"@) == Some(self.download_location@)
    }

    /// Reads the record that `j` holds; `None` where `j` is not one.
    pub fn from_json(j: &Json) -> (r: Option<WelcomeLinks>)
        ensures
            r is Some <==> WelcomeLinks::accepts(j@),
            r matches Some(x) ==> x.mirrors(j@),
    {
        if !j.is_object() {
            return None;
        }
        let links_self = match j.text("self") {
            Some(x) => x,
            None => {
                return None;
            },
        };
        let html = match j.text("html") {
            Some(x) => x,
            None => {
                return None;
            },
        };
        let download = match j.text("download") {
            Some(x) => x,
            None => {
                return None;
            },
        };
        let download_location = match j.text("download_location") {
            Some(x) => x,
            None => {
                return None;
            },
        };
        Some(WelcomeLinks { links_self, html, download, download_location })
    }

    /// Only what is accepted can be mirrored.
    pub proof fn lemma_mirrors_accepts(&self, j: JsonTree)
        requires
            self.mirrors(j),
        ensures
            WelcomeLinks::accepts(j),
    {
    }

    /// A member that is not listed changes nothing: with it or without it,
    /// the object is accepted alike and mirrored alike.
    pub proof fn lemma_unlisted_member(
        &self,
        entries: Seq<(Seq<char>, JsonTree)>,
        i: int,
        extra: (Seq<char>, JsonTree),
    )
        requires
            0 <= i <= entries.len(),
            extra.0 != "self"@,
            extra.0 != "html"@,
            extra.0 != "download"@,
            extra.0 != "download_location"@,
        ensures
            WelcomeLinks::accepts(JsonTree::Object(entries.insert(i, extra))) == WelcomeLinks::accepts(
                JsonTree::Object(entries),
            ),
            self.mirrors(JsonTree::Object(entries.insert(i, extra))) == self.mirrors(
                JsonTree::Object(entries),
            ),
    {
        lemma_find_skips_other_keys(entries, i, extra, "self"@);
        lemma_find_skips_other_keys(entries, i, extra, "html"@);
        lemma_find_skips_other_keys(entries, i, extra, "download"@);
        lemma_find_skips_other_keys(entries, i, extra, "download_location"@);
    }
}

/// How a photo fared in one topic: its status and, where given, the
/// time of approval.
#[derive(Debug)]
pub struct Animals {
    pub status: Status,
    pub approved_on: Option<String>,
}

impl Animals {
    /// Whether `j` is an object that has every required member, each
    /// member that is there being of its kind.
    pub open spec fn accepts(j: JsonTree) -> bool {
        &&& j is Object
        &&& (j.member("status"@) matches Some(m) && Status::accepts(m))
        &&& j.optional_text("approved_on"@) is Some
    }

    /// Whether this record holds, member by member, what `j` holds.
    pub open spec fn mirrors(&self, j: JsonTree) -> bool {
        &&& j is Object
        &&& (j.member("status"@) matches Some(m) && self.status.mirrors(m))
        &&& j.optional_text("approved_on"@) == Some(self.approved_on.deep_view())
    }

    /// Reads the record that `j` holds; `None` where `j` is not one.
    pub fn from_json(j: &Json) -> (r: Option<Animals>)
        ensures
            r is Some <==> Animals::accepts(j@),
            r matches Some(x) ==> x.mirrors(j@),
    {
        if !j.is_object() {
            return None;
        }
        let status = match j.get("status") {
            Some(m) => match Status::from_json(m) {
                Some(x) => x,
                None => {
                    return None;
                },
            },
            None => {
                return None;
            },
        };
        let approved_on = match j.optional_text("approved_on") {
            Some(x) => x,
            None => {
                return None;
            },
        };
        Some(Animals { status, approved_on })
    }

    /// Only what is accepted can be mirrored.
    pub proof fn lemma_mirrors_accepts(&self, j: JsonTree)
        requires
            self.mirrors(j),
        ensures
            Animals::accepts(j),
    {
        self.status.lemma_mirrors_accepts(j.member("status"@)->0);
    }

    /// A member that is not listed changes nothing: with it or without it,
    /// the object is accepted alike and mirrored alike.
    pub proof fn lemma_unlisted_member(
        &self,
        entries: Seq<(Seq<char>, JsonTree)>,
        i: int,
        extra: (Seq<char>, JsonTree),
    )
        requires
            0 <= i <= entries.len(),
            extra.0 != "status"@,
            extra.0 != "approved_on"@,
        ensures
            Animals::accepts(JsonTree::Object(entries.insert(i, extra))) == Animals::accepts(
                JsonTree::Object(entries),
            ),
            self.mirrors(JsonTree::Object(entries.insert(i, extra))) == self.mirrors(
                JsonTree::Object(entries),
            ),
    {
        lemma_find_skips_other_keys(entries, i, extra, "status"@);
        lemma_find_skips_other_keys(entries, i, extra, "approved_on"@);
    }

    /// Whether a member that may be left out is left out or accepted.
    pub open spec fn accepts_optional(o: Option<JsonTree>) -> bool {
        o matches Some(j) ==> Animals::accepts(j)
    }

    /// Whether `field` holds what a member that may be left out holds.
    pub open spec fn mirrors_optional(field: Option<Animals>, o: Option<JsonTree>) -> bool {
        match o {
            Some(j) => field matches Some(x) && x.mirrors(j),
            None => field is None,
        }
    }

    /// Reads a member that may be left out: `Some(None)` where it is,
    /// `None` where it is there and is not a record of this kind.
    pub fn from_optional(o: Option<&Json>) -> (r: Option<Option<Animals>>)
        ensures
            r is Some <==> Animals::accepts_optional(o.deep_view()),
            r matches Some(field) ==> Animals::mirrors_optional(field, o.deep_view()),
    {
        match o {
            None => Some(None),
            Some(j) => match Animals::from_json(j) {
                Some(x) => Some(Some(x)),
                None => None,
            },
        }
    }
}

/// How a photo fared in the topic that records a status alone.
#[derive(Debug)]
pub struct People {
    pub status: Status,
}

impl People {
    /// Whether `j` is an object that has every required member, each
    /// member that is there being of its kind.
    pub open spec fn accepts(j: JsonTree) -> bool {
        &&& j is Object
        &&& (j.member("status"@) matches Some(m) && Status::accepts(m))
    }

    /// Whether this record holds, member by member, what `j` holds.
    pub open spec fn mirrors(&self, j: JsonTree) -> bool {
        &&& j is Object
        &&& (j.member("status"@) matches Some(m) && self.status.mirrors(m))
    }

    /// Reads the record that `j` holds; `None` where `j` is not one.
    pub fn from_json(j: &Json) -> (r: Option<People>)
        ensures
            r is Some <==> People::accepts(j@),
            r matches Some(x) ==> x.mirrors(j@),
    {
        if !j.is_object() {
            return None;
        }
        let status = match j.get("status") {
            Some(m) => match Status::from_json(m) {
                Some(x) => x,
                None => {
                    return None;
                },
            },
            None => {
                return None;
            },
        };
        Some(People { status })
    }

    /// Only what is accepted can be mirrored.
    pub proof fn lemma_mirrors_accepts(&self, j: JsonTree)
        requires
            self.mirrors(j),
        ensures
            People::accepts(j),
    {
        self.status.lemma_mirrors_accepts(j.member("status"@)->0);
    }

    /// A member that is not listed changes nothing: with it or without it,
    /// the object is accepted alike and mirrored alike.
    pub proof fn lemma_unlisted_member(
        &self,
        entries: Seq<(Seq<char>, JsonTree)>,
        i: int,
        extra: (Seq<char>, JsonTree),
    )
        requires
            0 <= i <= entries.len(),
            extra.0 != "status"@,
        ensures
            People::accepts(JsonTree::Object(entries.insert(i, extra))) == People::accepts(
                JsonTree::Object(entries),
            ),
            self.mirrors(JsonTree::Object(entries.insert(i, extra))) == self.mirrors(
                JsonTree::Object(entries),
            ),
    {
        lemma_find_skips_other_keys(entries, i, extra, "status"@);
    }

    /// Whether a member that may be left out is left out or accepted.
    pub open spec fn accepts_optional(o: Option<JsonTree>) -> bool {
        o matches Some(j) ==> People::accepts(j)
    }

    /// Whether `field` holds what a member that may be left out holds.
    pub open spec fn mirrors_optional(field: Option<People>, o: Option<JsonTree>) -> bool {
        match o {
            Some(j) => field matches Some(x) && x.mirrors(j),
            None => field is None,
        }
    }

    /// Reads a member that may be left out: `Some(None)` where it is,
    /// `None` where it is there and is not a record of this kind.
    pub fn from_optional(o: Option<&Json>) -> (r: Option<Option<People>>)
        ensures
            r is Some <==> People::accepts_optional(o.deep_view()),
            r matches Some(field) ==> People::mirrors_optional(field, o.deep_view()),
    {
        match o {
            None => Some(None),
            Some(j) => match People::from_json(j) {
                Some(x) => Some(Some(x)),
                None => None,
            },
        }
    }
}

/// The topics that a photo was submitted to. Every member may be left
/// out.
#[derive(Debug)]
pub struct TopicSubmissions {
    pub nature: Option<Animals>,
    pub wallpapers: Option<Animals>,
    /// The member `arts-culture`.
    pub arts_culture: Option<Animals>,
    /// The member `color-theory`.
    pub color_theory: Option<Animals>,
    /// The member `textures-patterns`.
    pub textures_patterns: Option<Animals>,
    pub animals: Option<Animals>,
    pub people: Option<People>,
    /// The member `street-photography`.
    pub street_photography: Option<Animals>,
    /// The member `architecture-interior`.
    pub architecture_interior: Option<Animals>,
    pub architecture: Option<Animals>,
}

impl TopicSubmissions {
    /// Whether `j` is an object that has every required member, each
    /// member that is there being of its kind.
    pub open spec fn accepts(j: JsonTree) -> bool {
        &&& j is Object
        &&& Animals::accepts_optional(j.optional("nature"@))
        &&& Animals::accepts_optional(j.optional("wallpapers"@))
        &&& Animals::accepts_optional(j.optional("arts-culture"@))
        &&& Animals::accepts_optional(j.optional("color-theory"@))
        &&& Animals::accepts_optional(j.optional("textures-patterns"@))
        &&& Animals::accepts_optional(j.optional("animals"@))
        &&& People::accepts_optional(j.optional("people"@))
        &&& Animals::accepts_optional(j.optional("street-photography"@))
        &&& Animals::accepts_optional(j.optional("architecture-interior"@))
        &&& Animals::accepts_optional(j.optional("architecture"@))
    }

    /// Whether this record holds, member by member, what `j` holds.
    pub open spec fn mirrors(&self, j: JsonTree) -> bool {
        &&& j is Object
        &&& Animals::mirrors_optional(self.nature, j.optional("nature"@))
        &&& Animals::mirrors_optional(self.wallpapers, j.optional("wallpapers"@))
        &&& Animals::mirrors_optional(self.arts_culture, j.optional("arts-culture"@))
        &&& Animals::mirrors_optional(self.color_theory, j.optional("color-theory"@))
        &&& Animals::mirrors_optional(self.textures_patterns, j.optional("textures-patterns"@))
        &&& Animals::mirrors_optional(self.animals, j.optional("animals"@))
        &&& People::mirrors_optional(self.people, j.optional("people"@))
        &&& Animals::mirrors_optional(self.street_photography, j.optional("street-photography"@))
        &&& Animals::mirrors_optional(self.architecture_interior, j.optional("architecture-interior"@))
        &&& Animals::mirrors_optional(self.architecture, j.optional("architecture"@))
    }

    /// Reads the record that `j` holds; `None` where `j` is not one.
    pub fn from_json(j: &Json) -> (r: Option<TopicSubmissions>)
        ensures
            r is Some <==> TopicSubmissions::accepts(j@),
            r matches Some(x) ==> x.mirrors(j@),
    {
        if !j.is_object() {
            return None;
        }
        let nature = match Animals::from_optional(j.optional("nature")) {
            Some(x) => x,
            None => {
                return None;
            },
        };
        let wallpapers = match Animals::from_optional(j.optional("wallpapers")) {
            Some(x) => x,
            None => {
                return None;
            },
        };
        let arts_culture = match Animals::from_optional(j.optional("arts-culture")) {
            Some(x) => x,
            None => {
                return None;
            },
        };
        let color_theory = match Animals::from_optional(j.optional("color-theory")) {
            Some(x) => x,
            None => {
                return None;
            },
        };
        let textures_patterns = match Animals::from_optional(j.optional("textures-patterns")) {
            Some(x) => x,
            None => {
                return None;
            },
        };
        let animals = match Animals::from_optional(j.optional("animals")) {
            Some(x) => x,
            None => {
                return None;
            },
        };
        let people = match People::from_optional(j.optional("people")) {
            Some(x) => x,
            None => {
                return None;
            },
        };
        let street_photography = match Animals::from_optional(j.optional("street-photography")) {
            Some(x) => x,
            None => {
                return None;
            },
        };
        let architecture_interior = match Animals::from_optional(j.optional("architecture-interior")) {
            Some(x) => x,
            None => {
                return None;
            },
        };
        let architecture = match Animals::from_optional(j.optional("architecture")) {
            Some(x) => x,
            None => {
                return None;
            },
        };
        Some(TopicSubmissions { nature, wallpapers, arts_culture, color_theory, textures_patterns, animals, people, street_photography, architecture_interior, architecture })
    }

    /// Only what is accepted can be mirrored.
    pub proof fn lemma_mirrors_accepts(&self, j: JsonTree)
        requires
            self.mirrors(j),
        ensures
            TopicSubmissions::accepts(j),
    {
        if j.optional("nature"@) is Some {
            self.nature->0.lemma_mirrors_accepts(j.optional("nature"@)->0);
        }
        if j.optional("wallpapers"@) is Some {
            self.wallpapers->0.lemma_mirrors_accepts(j.optional("wallpapers"@)->0);
        }
        if j.optional("arts-culture"@) is Some {
            self.arts_culture->0.lemma_mirrors_accepts(j.optional("arts-culture"@)->0);
        }
        if j.optional("color-theory"@) is Some {
            self.color_theory->0.lemma_mirrors_accepts(j.optional("color-theory"@)->0);
        }
        if j.optional("textures-patterns"@) is Some {
            self.textures_patterns->0.lemma_mirrors_accepts(j.optional("textures-patterns"@)->0);
        }
        if j.optional("animals"@) is Some {
            self.animals->0.lemma_mirrors_accepts(j.optional("animals"@)->0);
        }
        if j.optional("people"@) is Some {
            self.people->0.lemma_mirrors_accepts(j.optional("people"@)->0);
        }
        if j.optional("street-photography"@) is Some {
            self.street_photography->0.lemma_mirrors_accepts(j.optional("street-photography"@)->0);
        }
        if j.optional("architecture-interior"@) is Some {
            self.architecture_interior->0.lemma_mirrors_accepts(j.optional("architecture-interior"@)->0);
        }
        if j.optional("architecture"@) is Some {
            self.architecture->0.lemma_mirrors_accepts(j.optional("architecture"@)->0);
        }
    }

    /// A member that is not listed changes nothing: with it or without it,
    /// the object is accepted alike and mirrored alike.
    pub proof fn lemma_unlisted_member(
        &self,
        entries: Seq<(Seq<char>, JsonTree)>,
        i: int,
        extra: (Seq<char>, JsonTree),
    )
        requires
            0 <= i <= entries.len(),
            extra.0 != "nature"@,
            extra.0 != "wallpapers"@,
            extra.0 != "arts-culture"@,
            extra.0 != "color-theory"@,
            extra.0 != "textures-patterns"@,
            extra.0 != "animals"@,
            extra.0 != "people"@,
            extra.0 != "street-photography"@,
            extra.0 != "architecture-interior"@,
            extra.0 != "architecture"@,
        ensures
            TopicSubmissions::accepts(JsonTree::Object(entries.insert(i, extra))) == TopicSubmissions::accepts(
                JsonTree::Object(entries),
            ),
            self.mirrors(JsonTree::Object(entries.insert(i, extra))) == self.mirrors(
                JsonTree::Object(entries),
            ),
    {
        lemma_find_skips_other_keys(entries, i, extra, "nature"@);
        lemma_find_skips_other_keys(entries, i, extra, "wallpapers"@);
        lemma_find_skips_other_keys(entries, i, extra, "arts-culture"@);
        lemma_find_skips_other_keys(entries, i, extra, "color-theory"@);
        lemma_find_skips_other_keys(entries, i, extra, "textures-patterns"@);
        lemma_find_skips_other_keys(entries, i, extra, "animals"@);
        lemma_find_skips_other_keys(entries, i, extra, "people"@);
        lemma_find_skips_other_keys(entries, i, extra, "street-photography"@);
        lemma_find_skips_other_keys(entries, i, extra, "architecture-interior"@);
        lemma_find_skips_other_keys(entries, i, extra, "architecture"@);
    }
}

/// The links that belong to one user.
#[derive(Debug)]
pub struct UserLinks {
    /// The member `self`.
    pub links_self: String,
    pub html: String,
    pub photos: String,
    pub likes: String,
    pub portfolio: String,
    pub following: String,
    pub followers: String,
}

impl UserLinks {
    /// Whether `j` is an object that has every required member, each
    /// member that is there being of its kind.
    pub open spec fn accepts(j: JsonTree) -> bool {
        &&& j is Object
        &&& j.text("self"@) is Some
        &&& j.text("html"@) is Some
        &&& j.text("photos"@) is Some
        &&& j.text("likes"@) is Some
        &&& j.text("portfolio"@) is Some
        &&& j.text("following"@) is Some
        &&& j.text("followers"@) is Some
    }

    /// Whether this record holds, member by member, what `j` holds.
    pub open spec fn mirrors(&self, j: JsonTree) -> bool {
        &&& j is Object
        &&& j.text("self"@) == Some(self.links_self@)
        &&& j.text("html"@) == Some(self.html@)
        &&& j.text("photos"@) == Some(self.photos@)
        &&& j.text("likes"@) == Some(self.likes@)
        &&& j.text("portfolio"@) == Some(self.portfolio@)
        &&& j.text("following"@) == Some(self.following@)
        &&& j.text("followers"@) == Some(self.followers@)
    }

    /// Reads the record that `j` holds; `None` where `j` is not one.
    pub fn from_json(j: &Json) -> (r: Option<UserLinks>)
        ensures
            r is Some <==> UserLinks::accepts(j@),
            r matches Some(x) ==> x.mirrors(j@),
    {
        if !j.is_object() {
            return None;
        }
        let links_self = match j.text("self") {
            Some(x) => x,
            None => {
                return None;
            },
        };
        let html = match j.text("html") {
            Some(x) => x,
            None => {
                return None;
            },
        };
        let photos = match j.text("photos") {
            Some(x) => x,
            None => {
                return None;
            },
        };
        let likes = match j.text("likes") {
            Some(x) => x,
            None => {
                return None;
            },
        };
        let portfolio = match j.text("portfolio") {
            Some(x) => x,
            None => {
                return None;
            },
        };
        let following = match j.text("following") {
            Some(x) => x,
            None => {
                return None;
            },
        };
        let followers = match j.text("followers") {
            Some(x) => x,
            None => {
                return None;
            },
        };
        Some(UserLinks { links_self, html, photos, likes, portfolio, following, followers })
    }

    /// Only what is accepted can be mirrored.
    pub proof fn lemma_mirrors_accepts(&self, j: JsonTree)
        requires
            self.mirrors(j),
        ensures
            UserLinks::accepts(j),
    {
    }

    /// A member that is not listed changes nothing: with it or without it,
    /// the object is accepted alike and mirrored alike.
    pub proof fn lemma_unlisted_member(
        &self,
        entries: Seq<(Seq<char>, JsonTree)>,
        i: int,
        extra: (Seq<char>, JsonTree),
    )
        requires
            0 <= i <= entries.len(),
            extra.0 != "self"@,
            extra.0 != "html"@,
            extra.0 != "photos"@,
            extra.0 != "likes"@,
            extra.0 != "portfolio"@,
            extra.0 != "following"@,
            extra.0 != "followers"@,
        ensures
            UserLinks::accepts(JsonTree::Object(entries.insert(i, extra))) == UserLinks::accepts(
                JsonTree::Object(entries),
            ),
            self.mirrors(JsonTree::Object(entries.insert(i, extra))) == self.mirrors(
                JsonTree::Object(entries),
            ),
    {
        lemma_find_skips_other_keys(entries, i, extra, "self"@);
        lemma_find_skips_other_keys(entries, i, extra, "html"@);
        lemma_find_skips_other_keys(entries, i, extra, "photos"@);
        lemma_find_skips_other_keys(entries, i, extra, "likes"@);
        lemma_find_skips_other_keys(entries, i, extra, "portfolio"@);
        lemma_find_skips_other_keys(entries, i, extra, "following"@);
        lemma_find_skips_other_keys(entries, i, extra, "followers"@);
    }
}

/// The addresses of a user's picture in three sizes.
#[derive(Debug)]
pub struct ProfileImage {
    pub small: String,
    pub medium: String,
    pub large: String,
}

impl ProfileImage {
    /// Whether `j` is an object that has every required member, each
    /// member that is there being of its kind.
    pub open spec fn accepts(j: JsonTree) -> bool {
        &&& j is Object
        &&& j.text("small"@) is Some
        &&& j.text("medium"@) is Some
        &&& j.text("large"@) is Some
    }

    /// Whether this record holds, member by member, what `j` holds.
    pub open spec fn mirrors(&self, j: JsonTree) -> bool {
        &&& j is Object
        &&& j.text("small"@) == Some(self.small@)
        &&& j.text("medium"@) == Some(self.medium@)
        &&& j.text("large"@) == Some(self.large@)
    }

    /// Reads the record that `j` holds; `None` where `j` is not one.
    pub fn from_json(j: &Json) -> (r: Option<ProfileImage>)
        ensures
            r is Some <==> ProfileImage::accepts(j@),
            r matches Some(x) ==> x.mirrors(j@),
    {
        if !j.is_object() {
            return None;
        }
        let small = match j.text("small") {
            Some(x) => x,
            None => {
                return None;
            },
        };
        let medium = match j.text("medium") {
            Some(x) => x,
            None => {
                return None;
            },
        };
        let large = match j.text("large") {
            Some(x) => x,
            None => {
                return None;
            },
        };
        Some(ProfileImage { small, medium, large })
    }

    /// Only what is accepted can be mirrored.
    pub proof fn lemma_mirrors_accepts(&self, j: JsonTree)
        requires
            self.mirrors(j),
        ensures
            ProfileImage::accepts(j),
    {
    }

    /// A member that is not listed changes nothing: with it or without it,
    /// the object is accepted alike and mirrored alike.
    pub proof fn lemma_unlisted_member(
        &self,
        entries: Seq<(Seq<char>, JsonTree)>,
        i: int,
        extra: (Seq<char>, JsonTree),
    )
        requires
            0 <= i <= entries.len(),
            extra.0 != "small"@,
            extra.0 != "medium"@,
            extra.0 != "large"@,
        ensures
            ProfileImage::accepts(JsonTree::Object(entries.insert(i, extra))) == ProfileImage::accepts(
                JsonTree::Object(entries),
            ),
            self.mirrors(JsonTree::Object(entries.insert(i, extra))) == self.mirrors(
                JsonTree::Object(entries),
            ),
    {
        lemma_find_skips_other_keys(entries, i, extra, "small"@);
        lemma_find_skips_other_keys(entries, i, extra, "medium"@);
        lemma_find_skips_other_keys(entries, i, extra, "large"@);
    }
}

/// A user's names on other platforms. Every member may be left out.
#[derive(Debug)]
pub struct Social {
    pub instagram_username: Option<String>,
    pub portfolio_url: Option<String>,
    pub twitter_username: Option<String>,
    pub paypal_email: Option<Json>,
}

impl Social {
    /// Whether `j` is an object that has every required member, each
    /// member that is there being of its kind.
    pub open spec fn accepts(j: JsonTree) -> bool {
        &&& j is Object
        &&& j.optional_text("instagram_username"@) is Some
        &&& j.optional_text("portfolio_url"@) is Some
        &&& j.optional_text("twitter_username"@) is Some
    }

    /// Whether this record holds, member by member, what `j` holds.
    pub open spec fn mirrors(&self, j: JsonTree) -> bool {
        &&& j is Object
        &&& j.optional_text("instagram_username"@) == Some(self.instagram_username.deep_view())
        &&& j.optional_text("portfolio_url"@) == Some(self.portfolio_url.deep_view())
        &&& j.optional_text("twitter_username"@) == Some(self.twitter_username.deep_view())
        &&& j.optional("paypal_email"@) == self.paypal_email.deep_view()
    }

    /// Reads the record that `j` holds; `None` where `j` is not one.
    pub fn from_json(j: &Json) -> (r: Option<Social>)
        ensures
            r is Some <==> Social::accepts(j@),
            r matches Some(x) ==> x.mirrors(j@),
    {
        if !j.is_object() {
            return None;
        }
        let instagram_username = match j.optional_text("instagram_username") {
            Some(x) => x,
            None => {
                return None;
            },
        };
        let portfolio_url = match j.optional_text("portfolio_url") {
            Some(x) => x,
            None => {
                return None;
            },
        };
        let twitter_username = match j.optional_text("twitter_username") {
            Some(x) => x,
            None => {
                return None;
            },
        };
        let paypal_email = j.optional_copy("paypal_email");
        Some(Social { instagram_username, portfolio_url, twitter_username, paypal_email })
    }

    /// Only what is accepted can be mirrored.
    pub proof fn lemma_mirrors_accepts(&self, j: JsonTree)
        requires
            self.mirrors(j),
        ensures
            Social::accepts(j),
    {
    }

    /// A member that is not listed changes nothing: with it or without it,
    /// the object is accepted alike and mirrored alike.
    pub proof fn lemma_unlisted_member(
        &self,
        entries: Seq<(Seq<char>, JsonTree)>,
        i: int,
        extra: (Seq<char>, JsonTree),
    )
        requires
            0 <= i <= entries.len(),
            extra.0 != "instagram_username"@,
            extra.0 != "portfolio_url"@,
            extra.0 != "twitter_username"@,
            extra.0 != "paypal_email"@,
        ensures
            Social::accepts(JsonTree::Object(entries.insert(i, extra))) == Social::accepts(
                JsonTree::Object(entries),
            ),
            self.mirrors(JsonTree::Object(entries.insert(i, extra))) == self.mirrors(
                JsonTree::Object(entries),
            ),
    {
        lemma_find_skips_other_keys(entries, i, extra, "instagram_username"@);
        lemma_find_skips_other_keys(entries, i, extra, "portfolio_url"@);
        lemma_find_skips_other_keys(entries, i, extra, "twitter_username"@);
        lemma_find_skips_other_keys(entries, i, extra, "paypal_email"@);
    }
}

/// The user who published a photo.
#[derive(Debug)]
pub struct User {
    pub id: String,
    pub updated_at: String,
    pub username: String,
    pub name: String,
    pub first_name: String,
    pub last_name: String,
    pub twitter_username: Option<String>,
    pub portfolio_url: Option<String>,
    pub bio: Option<String>,
    pub location: Option<String>,
    pub links: UserLinks,
    pub profile_image: ProfileImage,
    pub instagram_username: Option<String>,
    pub total_collections: i64,
    pub total_likes: i64,
    pub total_photos: i64,
    pub accepted_tos: bool,
    pub for_hire: bool,
    pub social: Social,
}

impl User {
    /// Whether `j` is an object that has every required member, each
    /// member that is there being of its kind.
    pub open spec fn accepts(j: JsonTree) -> bool {
        &&& j is Object
        &&& j.text("id"@) is Some
        &&& j.text("updated_at"@) is Some
        &&& j.text("username"@) is Some
        &&& j.text("name"@) is Some
        &&& j.text("first_name"@) is Some
        &&& j.text("last_name"@) is Some
        &&& j.optional_text("twitter_username"@) is Some
        &&& j.optional_text("portfolio_url"@) is Some
        &&& j.optional_text("bio"@) is Some
        &&& j.optional_text("location"@) is Some
        &&& (j.member("links"@) matches Some(m) && UserLinks::accepts(m))
        &&& (j.member("profile_image"@) matches Some(m) && ProfileImage::accepts(m))
        &&& j.optional_text("instagram_username"@) is Some
        &&& j.integer("total_collections"@) is Some
        &&& j.integer("total_likes"@) is Some
        &&& j.integer("total_photos"@) is Some
        &&& j.flag("accepted_tos"@) is Some
        &&& j.flag("for_hire"@) is Some
        &&& (j.member("social"@) matches Some(m) && Social::accepts(m))
    }

    /// Whether this record holds, member by member, what `j` holds.
    pub open spec fn mirrors(&self, j: JsonTree) -> bool {
        &&& j is Object
        &&& j.text("id"@) == Some(self.id@)
        &&& j.text("updated_at"@) == Some(self.updated_at@)
        &&& j.text("username"@) == Some(self.username@)
        &&& j.text("name"@) == Some(self.name@)
        &&& j.text("first_name"@) == Some(self.first_name@)
        &&& j.text("last_name"@) == Some(self.last_name@)
        &&& j.optional_text("twitter_username"@) == Some(self.twitter_username.deep_view())
        &&& j.optional_text("portfolio_url"@) == Some(self.portfolio_url.deep_view())
        &&& j.optional_text("bio"@) == Some(self.bio.deep_view())
        &&& j.optional_text("location"@) == Some(self.location.deep_view())
        &&& (j.member("links"@) matches Some(m) && self.links.mirrors(m))
        &&& (j.member("profile_image"@) matches Some(m) && self.profile_image.mirrors(m))
        &&& j.optional_text("instagram_username"@) == Some(self.instagram_username.deep_view())
        &&& j.integer("total_collections"@) == Some(self.total_collections)
        &&& j.integer("total_likes"@) == Some(self.total_likes)
        &&& j.integer("total_photos"@) == Some(self.total_photos)
        &&& j.flag("accepted_tos"@) == Some(self.accepted_tos)
        &&& j.flag("for_hire"@) == Some(self.for_hire)
        &&& (j.member("social"@) matches Some(m) && self.social.mirrors(m))
    }

    /// Reads the record that `j` holds; `None` where `j` is not one.
    pub fn from_json(j: &Json) -> (r: Option<User>)
        ensures
            r is Some <==> User::accepts(j@),
            r matches Some(x) ==> x.mirrors(j@),
    {
        if !j.is_object() {
            return None;
        }
        let id = match j.text("id") {
            Some(x) => x,
            None => {
                return None;
            },
        };
        let updated_at = match j.text("updated_at") {
            Some(x) => x,
            None => {
                return None;
            },
        };
        let username = match j.text("username") {
            Some(x) => x,
            None => {
                return None;
            },
        };
        let name = match j.text("name") {
            Some(x) => x,
            None => {
                return None;
            },
        };
        let first_name = match j.text("first_name") {
            Some(x) => x,
            None => {
                return None;
            },
        };
        let last_name = match j.text("last_name") {
            Some(x) => x,
            None => {
                return None;
            },
        };
        let twitter_username = match j.optional_text("twitter_username") {
            Some(x) => x,
            None => {
                return None;
            },
        };
        let portfolio_url = match j.optional_text("portfolio_url") {
            Some(x) => x,
            None => {
                return None;
            },
        };
        let bio = match j.optional_text("bio") {
            Some(x) => x,
            None => {
                return None;
            },
        };
        let location = match j.optional_text("location") {
            Some(x) => x,
            None => {
                return None;
            },
        };
        let links = match j.get("links") {
            Some(m) => match UserLinks::from_json(m) {
                Some(x) => x,
                None => {
                    return None;
                },
            },
            None => {
                return None;
            },
        };
        let profile_image = match j.get("profile_image") {
            Some(m) => match ProfileImage::from_json(m) {
                Some(x) => x,
                None => {
                    return None;
                },
            },
            None => {
                return None;
            },
        };
        let instagram_username = match j.optional_text("instagram_username") {
            Some(x) => x,
            None => {
                return None;
            },
        };
        let total_collections = match j.integer("total_collections") {
            Some(x) => x,
            None => {
                return None;
            },
        };
        let total_likes = match j.integer("total_likes") {
            Some(x) => x,
            None => {
                return None;
            },
        };
        let total_photos = match j.integer("total_photos") {
            Some(x) => x,
            None => {
                return None;
            },
        };
        let accepted_tos = match j.flag("accepted_tos") {
            Some(x) => x,
            None => {
                return None;
            },
        };
        let for_hire = match j.flag("for_hire") {
            Some(x) => x,
            None => {
                return None;
            },
        };
        let social = match j.get("social") {
            Some(m) => match Social::from_json(m) {
                Some(x) => x,
                None => {
                    return None;
                },
            },
            None => {
                return None;
            },
        };
        Some(User { id, updated_at, username, name, first_name, last_name, twitter_username, portfolio_url, bio, location, links, profile_image, instagram_username, total_collections, total_likes, total_photos, accepted_tos, for_hire, social })
    }

    /// Only what is accepted can be mirrored.
    pub proof fn lemma_mirrors_accepts(&self, j: JsonTree)
        requires
            self.mirrors(j),
        ensures
            User::accepts(j),
    {
        self.links.lemma_mirrors_accepts(j.member("links"@)->0);
        self.profile_image.lemma_mirrors_accepts(j.member("profile_image"@)->0);
        self.social.lemma_mirrors_accepts(j.member("social"@)->0);
    }

    /// A member that is not listed changes nothing: with it or without it,
    /// the object is accepted alike and mirrored alike.
    pub proof fn lemma_unlisted_member(
        &self,
        entries: Seq<(Seq<char>, JsonTree)>,
        i: int,
        extra: (Seq<char>, JsonTree),
    )
        requires
            0 <= i <= entries.len(),
            extra.0 != "id"@,
            extra.0 != "updated_at"@,
            extra.0 != "username"@,
            extra.0 != "name"@,
            extra.0 != "first_name"@,
            extra.0 != "last_name"@,
            extra.0 != "twitter_username"@,
            extra.0 != "portfolio_url"@,
            extra.0 != "bio"@,
            extra.0 != "location"@,
            extra.0 != "links"@,
            extra.0 != "profile_image"@,
            extra.0 != "instagram_username"@,
            extra.0 != "total_collections"@,
            extra.0 != "total_likes"@,
            extra.0 != "total_photos"@,
            extra.0 != "accepted_tos"@,
            extra.0 != "for_hire"@,
            extra.0 != "social"@,
        ensures
            User::accepts(JsonTree::Object(entries.insert(i, extra))) == User::accepts(
                JsonTree::Object(entries),
            ),
            self.mirrors(JsonTree::Object(entries.insert(i, extra))) == self.mirrors(
                JsonTree::Object(entries),
            ),
    {
        lemma_find_skips_other_keys(entries, i, extra, "id"@);
        lemma_find_skips_other_keys(entries, i, extra, "updated_at"@);
        lemma_find_skips_other_keys(entries, i, extra, "username"@);
        lemma_find_skips_other_keys(entries, i, extra, "name"@);
        lemma_find_skips_other_keys(entries, i, extra, "first_name"@);
        lemma_find_skips_other_keys(entries, i, extra, "last_name"@);
        lemma_find_skips_other_keys(entries, i, extra, "twitter_username"@);
        lemma_find_skips_other_keys(entries, i, extra, "portfolio_url"@);
        lemma_find_skips_other_keys(entries, i, extra, "bio"@);
        lemma_find_skips_other_keys(entries, i, extra, "location"@);
        lemma_find_skips_other_keys(entries, i, extra, "links"@);
        lemma_find_skips_other_keys(entries, i, extra, "profile_image"@);
        lemma_find_skips_other_keys(entries, i, extra, "instagram_username"@);
        lemma_find_skips_other_keys(entries, i, extra, "total_collections"@);
        lemma_find_skips_other_keys(entries, i, extra, "total_likes"@);
        lemma_find_skips_other_keys(entries, i, extra, "total_photos"@);
        lemma_find_skips_other_keys(entries, i, extra, "accepted_tos"@);
        lemma_find_skips_other_keys(entries, i, extra, "for_hire"@);
        lemma_find_skips_other_keys(entries, i, extra, "social"@);
    }
}

/// One photo of a collection page. Only `urls.full` matters to the
/// collector; the other members are checked and kept.
#[derive(Debug)]
pub struct WelcomeElement {
    pub id: String,
    pub created_at: String,
    pub updated_at: String,
    pub promoted_at: Option<String>,
    pub width: i64,
    pub height: i64,
    pub color: String,
    pub blur_hash: String,
    pub description: Option<String>,
    pub alt_description: Option<String>,
    pub urls: Urls,
    pub links: WelcomeLinks,
    pub likes: i64,
    pub liked_by_user: bool,
    pub current_user_collections: Vec<Option<Json>>,
    pub sponsorship: Option<Json>,
    pub topic_submissions: TopicSubmissions,
    pub user: User,
}

impl WelcomeElement {
    /// Whether `j` is an object that has every required member, each
    /// member that is there being of its kind.
    pub open spec fn accepts(j: JsonTree) -> bool {
        &&& j is Object
        &&& j.text("id"@) is Some
        &&& j.text("created_at"@) is Some
        &&& j.text("updated_at"@) is Some
        &&& j.optional_text("promoted_at"@) is Some
        &&& j.integer("width"@) is Some
        &&& j.integer("height"@) is Some
        &&& j.text("color"@) is Some
        &&& j.text("blur_hash"@) is Some
        &&& j.optional_text("description"@) is Some
        &&& j.optional_text("alt_description"@) is Some
        &&& (j.member("urls"@) matches Some(m) && Urls::accepts(m))
        &&& (j.member("links"@) matches Some(m) && WelcomeLinks::accepts(m))
        &&& j.integer("likes"@) is Some
        &&& j.flag("liked_by_user"@) is Some
        &&& j.nullable_items("current_user_collections"@) is Some
        &&& (j.member("topic_submissions"@) matches Some(m) && TopicSubmissions::accepts(m))
        &&& (j.member("user"@) matches Some(m) && User::accepts(m))
    }

    /// Whether this record holds, member by member, what `j` holds.
    pub open spec fn mirrors(&self, j: JsonTree) -> bool {
        &&& j is Object
        &&& j.text("id"@) == Some(self.id@)
        &&& j.text("created_at"@) == Some(self.created_at@)
        &&& j.text("updated_at"@) == Some(self.updated_at@)
        &&& j.optional_text("promoted_at"@) == Some(self.promoted_at.deep_view())
        &&& j.integer("width"@) == Some(self.width)
        &&& j.integer("height"@) == Some(self.height)
        &&& j.text("color"@) == Some(self.color@)
        &&& j.text("blur_hash"@) == Some(self.blur_hash@)
        &&& j.optional_text("description"@) == Some(self.description.deep_view())
        &&& j.optional_text("alt_description"@) == Some(self.alt_description.deep_view())
        &&& (j.member("urls"@) matches Some(m) && self.urls.mirrors(m))
        &&& (j.member("links"@) matches Some(m) && self.links.mirrors(m))
        &&& j.integer("likes"@) == Some(self.likes)
        &&& j.flag("liked_by_user"@) == Some(self.liked_by_user)
        &&& j.nullable_items("current_user_collections"@) == Some(self.current_user_collections.deep_view())
        &&& j.optional("sponsorship"@) == self.sponsorship.deep_view()
        &&& (j.member("topic_submissions"@) matches Some(m) && self.topic_submissions.mirrors(m))
        &&& (j.member("user"@) matches Some(m) && self.user.mirrors(m))
    }

    /// Reads the record that `j` holds; `None` where `j` is not one.
    pub fn from_json(j: &Json) -> (r: Option<WelcomeElement>)
        ensures
            r is Some <==> WelcomeElement::accepts(j@),
            r matches Some(x) ==> x.mirrors(j@),
    {
        if !j.is_object() {
            return None;
        }
        let id = match j.text("id") {
            Some(x) => x,
            None => {
                return None;
            },
        };
        let created_at = match j.text("created_at") {
            Some(x) => x,
            None => {
                return None;
            },
        };
        let updated_at = match j.text("updated_at") {
            Some(x) => x,
            None => {
                return None;
            },
        };
        let promoted_at = match j.optional_text("promoted_at") {
            Some(x) => x,
            None => {
                return None;
            },
        };
        let width = match j.integer("width") {
            Some(x) => x,
            None => {
                return None;
            },
        };
        let height = match j.integer("height") {
            Some(x) => x,
            None => {
                return None;
            },
        };
        let color = match j.text("color") {
            Some(x) => x,
            None => {
                return None;
            },
        };
        let blur_hash = match j.text("blur_hash") {
            Some(x) => x,
            None => {
                return None;
            },
        };
        let description = match j.optional_text("description") {
            Some(x) => x,
            None => {
                return None;
            },
        };
        let alt_description = match j.optional_text("alt_description") {
            Some(x) => x,
            None => {
                return None;
            },
        };
        let urls = match j.get("urls") {
            Some(m) => match Urls::from_json(m) {
                Some(x) => x,
                None => {
                    return None;
                },
            },
            None => {
                return None;
            },
        };
        let links = match j.get("links") {
            Some(m) => match WelcomeLinks::from_json(m) {
                Some(x) => x,
                None => {
                    return None;
                },
            },
            None => {
                return None;
            },
        };
        let likes = match j.integer("likes") {
            Some(x) => x,
            None => {
                return None;
            },
        };
        let liked_by_user = match j.flag("liked_by_user") {
            Some(x) => x,
            None => {
                return None;
            },
        };
        let current_user_collections = match j.nullable_items("current_user_collections") {
            Some(x) => x,
            None => {
                return None;
            },
        };
        let sponsorship = j.optional_copy("sponsorship");
        let topic_submissions = match j.get("topic_submissions") {
            Some(m) => match TopicSubmissions::from_json(m) {
                Some(x) => x,
                None => {
                    return None;
                },
            },
            None => {
                return None;
            },
        };
        let user = match j.get("user") {
            Some(m) => match User::from_json(m) {
                Some(x) => x,
                None => {
                    return None;
                },
            },
            None => {
                return None;
            },
        };
        Some(WelcomeElement { id, created_at, updated_at, promoted_at, width, height, color, blur_hash, description, alt_description, urls, links, likes, liked_by_user, current_user_collections, sponsorship, topic_submissions, user })
    }

    /// Only what is accepted can be mirrored.
    pub proof fn lemma_mirrors_accepts(&self, j: JsonTree)
        requires
            self.mirrors(j),
        ensures
            WelcomeElement::accepts(j),
    {
        self.urls.lemma_mirrors_accepts(j.member("urls"@)->0);
        self.links.lemma_mirrors_accepts(j.member("links"@)->0);
        self.topic_submissions.lemma_mirrors_accepts(j.member("topic_submissions"@)->0);
        self.user.lemma_mirrors_accepts(j.member("user"@)->0);
    }

    /// A member that is not listed changes nothing: with it or without it,
    /// the object is accepted alike and mirrored alike.
    pub proof fn lemma_unlisted_member(
        &self,
        entries: Seq<(Seq<char>, JsonTree)>,
        i: int,
        extra: (Seq<char>, JsonTree),
    )
        requires
            0 <= i <= entries.len(),
            extra.0 != "id"@,
            extra.0 != "created_at"@,
            extra.0 != "updated_at"@,
            extra.0 != "promoted_at"@,
            extra.0 != "width"@,
            extra.0 != "height"@,
            extra.0 != "color"@,
            extra.0 != "blur_hash"@,
            extra.0 != "description"@,
            extra.0 != "alt_description"@,
            extra.0 != "urls"@,
            extra.0 != "links"@,
            extra.0 != "likes"@,
            extra.0 != "liked_by_user"@,
            extra.0 != "current_user_collections"@,
            extra.0 != "sponsorship"@,
            extra.0 != "topic_submissions"@,
            extra.0 != "user"@,
        ensures
            WelcomeElement::accepts(JsonTree::Object(entries.insert(i, extra))) == WelcomeElement::accepts(
                JsonTree::Object(entries),
            ),
            self.mirrors(JsonTree::Object(entries.insert(i, extra))) == self.mirrors(
                JsonTree::Object(entries),
            ),
    {
        lemma_find_skips_other_keys(entries, i, extra, "id"@);
        lemma_find_skips_other_keys(entries, i, extra, "created_at"@);
        lemma_find_skips_other_keys(entries, i, extra, "updated_at"@);
        lemma_find_skips_other_keys(entries, i, extra, "promoted_at"@);
        lemma_find_skips_other_keys(entries, i, extra, "width"@);
        lemma_find_skips_other_keys(entries, i, extra, "height"@);
        lemma_find_skips_other_keys(entries, i, extra, "color"@);
        lemma_find_skips_other_keys(entries, i, extra, "blur_hash"@);
        lemma_find_skips_other_keys(entries, i, extra, "description"@);
        lemma_find_skips_other_keys(entries, i, extra, "alt_description"@);
        lemma_find_skips_other_keys(entries, i, extra, "urls"@);
        lemma_find_skips_other_keys(entries, i, extra, "links"@);
        lemma_find_skips_other_keys(entries, i, extra, "likes"@);
        lemma_find_skips_other_keys(entries, i, extra, "liked_by_user"@);
        lemma_find_skips_other_keys(entries, i, extra, "current_user_collections"@);
        lemma_find_skips_other_keys(entries, i, extra, "sponsorship"@);
        lemma_find_skips_other_keys(entries, i, extra, "topic_submissions"@);
        lemma_find_skips_other_keys(entries, i, extra, "user"@);
    }
}

/// What a collection page parses into.
pub type UnsplashResponse = Vec<WelcomeElement>;

/// Whether `doc` is a page: an array of which every item is a photo record.
pub open spec fn page_accepts(doc: JsonTree) -> bool {
    &&& doc is Array
    &&& forall|i: int|
        0 <= i < doc->Array_0.len() ==> WelcomeElement::accepts(#[trigger] doc->Array_0[i])
}

/// Whether `records` holds, item by item and in order, what the page `doc`
/// holds.
pub open spec fn page_mirrors(records: Seq<WelcomeElement>, doc: JsonTree) -> bool {
    &&& doc is Array
    &&& records.len() == doc->Array_0.len()
    &&& forall|i: int|
        0 <= i < records.len() ==> (#[trigger] records[i]).mirrors(doc->Array_0[i])
}

/// The full-size address that the photo record `record` carries.
pub open spec fn full_url(record: JsonTree) -> Seq<char>
    recommends
        WelcomeElement::accepts(record),
{
    record.member("urls"@)->0.text("full"@)->0
}

/// The full-size addresses of a page, one for each record and in the order
/// of the records; `None` where `doc` is not a page.
pub open spec fn page_full_urls(doc: JsonTree) -> Option<Seq<Seq<char>>> {
    if page_accepts(doc) {
        Some(Seq::new(doc->Array_0.len(), |i: int| full_url(doc->Array_0[i])))
    } else {
        None
    }
}

/// The full-size addresses of `records`, in order.
pub open spec fn full_urls_of(records: Seq<WelcomeElement>) -> Seq<Seq<char>> {
    Seq::new(records.len(), |i: int| records[i].urls.full@)
}

/// Reads a page; `None` where `doc` is not an array or one of its items is
/// not a photo record.
pub fn read_page(doc: &Json) -> (r: Option<UnsplashResponse>)
    ensures
        r is Some <==> page_accepts(doc@),
        r matches Some(records) ==> page_mirrors(records@, doc@),
{
    match doc {
        Json::Array(items) => {
            let mut records: Vec<WelcomeElement> = Vec::new();
            let mut i: usize = 0;
            while i < items.len()
                invariant
                    i <= items@.len(),
                    records@.len() == i,
                    doc@ is Array,
                    doc@->Array_0.len() == items@.len(),
                    forall|k: int|
                        0 <= k < items@.len() ==> doc@->Array_0[k] == (#[trigger] items@[k])@,
                    forall|k: int|
                        0 <= k < i ==> WelcomeElement::accepts(#[trigger] doc@->Array_0[k]),
                    forall|k: int|
                        0 <= k < i ==> (#[trigger] records@[k]).mirrors(doc@->Array_0[k]),
                decreases items@.len() - i,
            {
                match WelcomeElement::from_json(&items[i]) {
                    Some(record) => {
                        records.push(record);
                    },
                    None => {
                        assert(!WelcomeElement::accepts(doc@->Array_0[i as int]));
                        return None;
                    },
                }
                i += 1;
            }
            Some(records)
        },
        _ => None,
    }
}

/// Picks the full-size address out of each record.
pub fn full_urls(records: &Vec<WelcomeElement>) -> (urls: Vec<String>)
    ensures
        urls.deep_view() == full_urls_of(records@),
{
    let mut urls: Vec<String> = Vec::new();
    let mut i: usize = 0;
    while i < records.len()
        invariant
            i <= records@.len(),
            urls@.len() == i,
            forall|k: int| 0 <= k < i ==> (#[trigger] urls@[k])@ == records@[k].urls.full@,
        decreases records@.len() - i,
    {
        urls.push(records[i].urls.full.clone());
        i += 1;
    }
    assert(urls.deep_view() =~= full_urls_of(records@));
    urls
}

/// The records read from a page carry the full-size addresses of the page:
/// as many as the page has records, each the `urls.full` member of its
/// record, in the order of the records.
pub proof fn lemma_records_carry_page_urls(records: Seq<WelcomeElement>, doc: JsonTree)
    requires
        page_mirrors(records, doc),
    ensures
        page_full_urls(doc) == Some(full_urls_of(records)),
        full_urls_of(records).len() == doc->Array_0.len(),
{
    assert forall|i: int| 0 <= i < doc->Array_0.len() implies WelcomeElement::accepts(
        #[trigger] doc->Array_0[i],
    ) by {
        records[i].lemma_mirrors_accepts(doc->Array_0[i]);
    }
    assert(page_full_urls(doc)->0 =~= full_urls_of(records)) by {
        assert forall|i: int| 0 <= i < records.len() implies full_url(doc->Array_0[i])
            == records[i].urls.full@ by {
            assert(records[i].mirrors(doc->Array_0[i]));
        }
    }
}

} // verus!

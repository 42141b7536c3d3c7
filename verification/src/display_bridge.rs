//! Commands sent to the display collaborator: what to show, where to
//! scroll, what to remove.

use vstd::prelude::*;

use crate::scheduler::{pairs_view, Record, RecordV};

verus! {

/// The projection of a record that the display shows.
#[derive(Debug)]
pub struct ViewElements {
    pub tweet_id: String,
    pub author_id: String,
    pub created_at: String,
    pub text: String,
    pub name: String,
    pub username: String,
    pub profile_image_url: String,
    pub attachments: Vec<(String, String)>,
}

impl View for ViewElements {
    type V = RecordV;

    open spec fn view(&self) -> RecordV {
        RecordV {
            tweet_id: self.tweet_id@,
            author_id: self.author_id@,
            created_at: self.created_at@,
            text: self.text@,
            name: self.name@,
            username: self.username@,
            profile_image_url: self.profile_image_url@,
            attachments: pairs_view(self.attachments@),
        }
    }
}

impl From<Record> for ViewElements {
    /// Repackages a record for the display, field by field.
    fn from(record: Record) -> (r: Self) {
        ViewElements {
            tweet_id: record.tweet_id,
            author_id: record.author_id,
            created_at: record.created_at,
            text: record.text,
            name: record.name,
            username: record.username,
            profile_image_url: record.profile_image_url,
            attachments: record.attachments,
        }
    }
}

impl vstd::std_specs::convert::FromSpecImpl<Record> for ViewElements {
    open spec fn obeys_from_spec() -> bool {
        true
    }

    open spec fn from_spec(record: Record) -> ViewElements {
        ViewElements {
            tweet_id: record.tweet_id,
            author_id: record.author_id,
            created_at: record.created_at,
            text: record.text,
            name: record.name,
            username: record.username,
            profile_image_url: record.profile_image_url,
            attachments: record.attachments,
        }
    }
}

/// A command to the display collaborator, tagged with the timeline name
/// it concerns.
#[derive(Debug)]
pub enum DisplayContrl {
    Add(String, ViewElements),
    Scroll(String, String),
    Delete(String, String),
}

/// The mathematical value of a display command.
#[verifier::ext_equal]
pub ghost enum DisplayV {
    Add(Seq<char>, RecordV),
    Scroll(Seq<char>, Seq<char>),
    Delete(Seq<char>, Seq<char>),
}

impl View for DisplayContrl {
    type V = DisplayV;

    open spec fn view(&self) -> DisplayV {
        match self {
            DisplayContrl::Add(name, ve) => DisplayV::Add(name@, ve@),
            DisplayContrl::Scroll(name, id) => DisplayV::Scroll(name@, id@),
            DisplayContrl::Delete(name, id) => DisplayV::Delete(name@, id@),
        }
    }
}

/// The views of a sequence of display commands.
pub open spec fn displays(s: Seq<DisplayContrl>) -> Seq<DisplayV> {
    s.map_values(|d: DisplayContrl| d@)
}

/// One delete command per id, in order, all for the same timeline.
pub open spec fn deletes_of(name: Seq<char>, ids: Seq<Seq<char>>) -> Seq<DisplayV> {
    ids.map_values(|id: Seq<char>| DisplayV::Delete(name, id))
}

pub(crate) proof fn lemma_displays_snoc(prev: Seq<DisplayContrl>, d: DisplayContrl)
    ensures
        displays(prev.push(d)) == displays(prev).push(d@),
{
    assert(prev.len() == displays(prev).len());
    assert forall|k: int| 0 <= k < displays(prev.push(d)).len() implies displays(prev.push(d))[k]
        == displays(prev).push(d@)[k] by {
        if k < prev.len() {
            assert(prev.push(d)[k] == prev[k]);
            assert(displays(prev)[k] == prev[k]@);
        } else {
            assert(prev.push(d)[k] == d);
        }
    }
    assert(displays(prev.push(d)) =~= displays(prev).push(d@));
}

} // verus!

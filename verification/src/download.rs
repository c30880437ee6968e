//! What is decided around the fetch of one volume: where its checkpoint and
//! its asset snapshot are kept, and whether an interrupted fetch is taken up
//! again.

use crate::text::chars_of;
use crate::text::push_str;
use crate::text::string_of;
use crate::text::strip_chars;
use crate::text::trimmed;
use crate::text::Strip;
use crate::volume::Novel;
use vstd::prelude::*;

verus! {

/// The path of the checkpoint of the volume with the given name.
pub open spec fn state_path_of(name: Seq<char>) -> Seq<char> {
    "./temp/download/"@ + name + ".state.json"@
}

/// The path of the asset snapshot of the volume with the given name.
pub open spec fn images_path_of(name: Seq<char>) -> Seq<char> {
    "./temp/images/"@ + name
}

/// The path of the packaged volume with the given name.
pub open spec fn output_path_of(name: Seq<char>) -> Seq<char> {
    "./output/"@ + name + ".epub"@
}

/// The path of the checkpoint of the volume with the given name.
pub fn state_path(name: &str) -> (r: String)
    ensures
        r@ == state_path_of(name@),
{
    let mut out: Vec<char> = Vec::new();
    push_str(&mut out, "./temp/download/");
    push_str(&mut out, name);
    push_str(&mut out, ".state.json");
    string_of(&out)
}

/// The path of the asset snapshot of the volume with the given name.
pub fn images_path(name: &str) -> (r: String)
    ensures
        r@ == images_path_of(name@),
{
    let mut out: Vec<char> = Vec::new();
    push_str(&mut out, "./temp/images/");
    push_str(&mut out, name);
    string_of(&out)
}

/// The path of the packaged volume with the given name.
pub fn output_path(name: &str) -> (r: String)
    ensures
        r@ == output_path_of(name@),
{
    let mut out: Vec<char> = Vec::new();
    push_str(&mut out, "./output/");
    push_str(&mut out, name);
    push_str(&mut out, ".epub");
    string_of(&out)
}

/// Whether an answer is a yes: the letter y, small or capital, with nothing
/// but white space around it.
pub open spec fn is_yes(answer: Seq<char>) -> bool {
    trimmed(answer) == seq!['y'] || trimmed(answer) == seq!['Y']
}

/// Whether an answer is a yes.
pub fn answers_yes(answer: &str) -> (r: bool)
    ensures
        r == is_yes(answer@),
{
    let text = chars_of(answer);
    let bare = strip_chars(&text, 0, Strip::WhiteSpace);
    assert(text@.subrange(0, text@.len() as int) =~= text@);
    if bare.len() == 1 && (bare[0] == 'y' || bare[0] == 'Y') {
        assert(bare@ =~= seq![bare@[0]]);
        true
    } else {
        proof {
            if bare@.len() == 1 {
                assert(bare@[0] != seq!['y'][0]);
                assert(bare@[0] != seq!['Y'][0]);
            }
        }
        false
    }
}

/// How the fetch of a volume begins.
#[derive(Debug)]
pub struct ResumePlan {
    /// The volume to go on with.
    pub novel: Novel,
    /// Whether the volume comes from the checkpoint.
    pub resumed: bool,
    /// Whether nothing is left to fetch.
    pub already_complete: bool,
}

/// How the fetch of a volume begins, given the volume as the catalog lists
/// it, the checkpoint that was found, if one was, and the answer to the
/// question whether to resume. With a checkpoint and a yes, the fetch goes on
/// from the checkpoint, and is complete already if the checkpoint has no
/// pending chapter. Else it begins anew with the listed volume.
pub fn decide_resume(listed: Novel, saved: Option<Novel>, answer: &str) -> (r: ResumePlan)
    ensures
        r.resumed == (saved is Some && is_yes(answer@)),
        r.novel == if r.resumed {
            saved->Some_0
        } else {
            listed
        },
        r.already_complete == (r.resumed && saved->Some_0@.pending.len() == 0),
{
    match saved {
        Some(checkpoint) => {
            if answers_yes(answer) {
                let done = checkpoint.pending_chapter_indices.len() == 0;
                ResumePlan { novel: checkpoint, resumed: true, already_complete: done }
            } else {
                ResumePlan { novel: listed, resumed: false, already_complete: false }
            }
        },
        None => ResumePlan { novel: listed, resumed: false, already_complete: false },
    }
}

impl Novel {
    /// How many chapters are no longer pending, in a well-formed volume.
    pub fn completed_count(&self) -> (r: usize)
        ensures
            self@.pending.len() <= self@.chapters.len() ==> r == self@.chapters.len()
                - self@.pending.len(),
            self@.pending.len() > self@.chapters.len() ==> r == 0,
    {
        let total = self.chapters.len();
        let pending = self.pending_chapter_indices.len();
        if pending <= total {
            total - pending
        } else {
            0
        }
    }
}

} // verus!

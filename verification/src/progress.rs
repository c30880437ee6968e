//! Counters for watching a batch of fetches while it runs. They are read for
//! display only: nothing is decided by them.

use crate::text::decimal;
use crate::text::push_decimal;
use crate::text::push_str;
use crate::text::string_of;
use vstd::prelude::*;

verus! {

/// The number that follows `n` in a counter that wraps around.
pub open spec fn bump(n: usize) -> usize {
    if n == usize::MAX {
        0
    } else {
        (n + 1) as usize
    }
}

fn bumped(n: usize) -> (r: usize)
    ensures
        r == bump(n),
{
    if n == usize::MAX {
        0
    } else {
        n + 1
    }
}

/// The number `n`, or the largest count where `n` is above it.
pub open spec fn capped(n: int) -> usize {
    if n > usize::MAX {
        usize::MAX
    } else if n < 0 {
        0
    } else {
        n as usize
    }
}

/// The counters of the fetches of a volume: how many have succeeded, how
/// many have failed, and how many there are in all. A fetch that fails is an
/// error and is not completed. A monitor can be carried from one run to the
/// next: the counts then go on.
#[derive(Debug)]
pub struct ProgressMonitor {
    pub completed: usize,
    pub errors: usize,
    pub total: usize,
    pub prefix: String,
    pub finished: bool,
}

/// What a `ProgressMonitor` holds.
pub struct ProgressView {
    pub completed: usize,
    pub errors: usize,
    pub total: usize,
    pub prefix: Seq<char>,
    pub finished: bool,
}

impl ProgressView {
    /// A monitor on which nothing has been counted yet.
    pub open spec fn fresh(total: usize, prefix: Seq<char>) -> ProgressView {
        ProgressView { completed: 0, errors: 0, total, prefix, finished: false }
    }

    /// The monitor after one more success.
    pub open spec fn incremented(self) -> ProgressView {
        ProgressView { completed: bump(self.completed), ..self }
    }

    /// The monitor after one more error: the error is counted, and nothing
    /// is completed by it.
    pub open spec fn with_error(self) -> ProgressView {
        ProgressView { errors: bump(self.errors), ..self }
    }

    /// How many fetches have ended, in success or in error.
    pub open spec fn ended(self) -> usize {
        capped(self.completed + self.errors)
    }

    /// The monitor at the start of a run in which `pending` fetches are to
    /// be made: the counts go on, and the fetches of the run are added to those
    /// that have ended.
    pub open spec fn next_run(self, pending: usize) -> ProgressView {
        ProgressView {
            total: capped(self.completed + self.errors + pending),
            finished: false,
            ..self
        }
    }

    /// The monitor once its display is frozen.
    pub open spec fn frozen(self) -> ProgressView {
        ProgressView { finished: true, ..self }
    }
}

/// The message that the bar shows: what is going on, and how many errors
/// there were, if there were any.
pub open spec fn message_of(p: ProgressView) -> Seq<char> {
    if p.finished {
        if p.errors > 0 {
            "完成! ("@ + decimal(p.errors as nat) + " 个错误)"@
        } else {
            "完成!"@
        }
    } else {
        if p.errors > 0 {
            "下载中…… ("@ + decimal(p.errors as nat) + " 个错误)"@
        } else {
            "下载中…… "@
        }
    }
}

impl View for ProgressMonitor {
    type V = ProgressView;

    open spec fn view(&self) -> ProgressView {
        ProgressView {
            completed: self.completed,
            errors: self.errors,
            total: self.total,
            prefix: self.prefix@,
            finished: self.finished,
        }
    }
}

impl ProgressMonitor {
    /// A monitor for `total` fetches on which nothing has been counted yet.
    pub fn new(total: usize, prefix: &str) -> (r: Self)
        ensures
            r@ == ProgressView::fresh(total, prefix@),
    {
        ProgressMonitor { completed: 0, errors: 0, total, prefix: prefix.to_owned(), finished: false }
    }

    /// Replaces the prefix that is shown before the bar.
    pub fn set_title(&mut self, prefix: &str)
        ensures
            final(self)@ == (ProgressView { prefix: prefix@, ..old(self)@ }),
    {
        self.prefix = prefix.to_owned();
    }

    /// The prefix that is shown before the bar.
    pub fn prefix(&self) -> (r: &str)
        ensures
            r@ == self.prefix@,
    {
        self.prefix.as_str()
    }

    /// How many fetches have succeeded.
    pub fn completed_count(&self) -> (r: usize)
        ensures
            r == self.completed,
    {
        self.completed
    }

    /// How many fetches have ended in an error.
    pub fn error_count(&self) -> (r: usize)
        ensures
            r == self.errors,
    {
        self.errors
    }

    /// Counts one fetch that succeeded.
    pub fn increment(&mut self)
        ensures
            final(self)@ == old(self)@.incremented(),
    {
        self.completed = bumped(self.completed);
    }

    /// Counts one fetch that failed: it is an error, and it is not
    /// completed.
    pub fn record_error(&mut self)
        ensures
            final(self)@ == old(self)@.with_error(),
    {
        self.errors = bumped(self.errors);
    }

    /// How many fetches have ended, in success or in error.
    pub fn ended_count(&self) -> (r: usize)
        ensures
            r == self@.ended(),
    {
        match self.completed.checked_add(self.errors) {
            Some(n) => n,
            None => usize::MAX,
        }
    }

    /// Where the bar stands: at the count of ended fetches while the batch
    /// runs, at the total once it is finished.
    pub fn position(&self) -> (r: usize)
        ensures
            r == if self.finished { self.total } else { self@.ended() },
    {
        if self.finished {
            self.total
        } else {
            self.ended_count()
        }
    }

    /// Begins a run in which `pending` fetches are to be made: the counts go
    /// on, the total is what has ended and what is to be made, and the display
    /// is no longer frozen.
    pub fn next_run(&mut self, pending: usize)
        ensures
            final(self)@ == old(self)@.next_run(pending),
    {
        let ended = self.ended_count();
        self.total = match ended.checked_add(pending) {
            Some(n) => n,
            None => usize::MAX,
        };
        self.finished = false;
    }

    /// The message that the bar shows.
    pub fn message(&self) -> (r: String)
        ensures
            r@ == message_of(self@),
    {
        let mut out: Vec<char> = Vec::new();
        if self.finished {
            if self.errors > 0 {
                push_str(&mut out, "完成! (");
                push_decimal(&mut out, self.errors as u64);
                push_str(&mut out, " 个错误)");
            } else {
                push_str(&mut out, "完成!");
            }
        } else {
            if self.errors > 0 {
                push_str(&mut out, "下载中…… (");
                push_decimal(&mut out, self.errors as u64);
                push_str(&mut out, " 个错误)");
            } else {
                push_str(&mut out, "下载中…… ");
            }
        }
        let r = string_of(&out);
        assert(r@ =~= message_of(self@));
        r
    }

    /// Freezes the display: the bar stays, full, and the counters keep their
    /// values.
    pub fn finish(&mut self)
        ensures
            final(self)@ == old(self)@.frozen(),
    {
        self.finished = true;
    }

    /// Freezes the display as `finish` does; the caller then takes the bar
    /// off the screen.
    pub fn finish_and_hide(&mut self)
        ensures
            final(self)@ == old(self)@.frozen(),
    {
        self.finished = true;
    }
}

impl Clone for ProgressMonitor {
    fn clone(&self) -> (r: Self)
        ensures
            r@ == self@,
    {
        ProgressMonitor {
            completed: self.completed,
            errors: self.errors,
            total: self.total,
            prefix: self.prefix.clone(),
            finished: self.finished,
        }
    }
}

/// Collects the settings of a monitor before it is built.
#[derive(Debug)]
pub struct ProgressMonitorBuilder {
    pub total: usize,
    pub template: Option<String>,
    pub progress_chars: Option<String>,
    pub initial_message: Option<String>,
    pub prefix: String,
}

/// The text of an optional string.
pub open spec fn opt_text(s: Option<String>) -> Option<Seq<char>> {
    match s {
        Some(t) => Some(t@),
        None => None,
    }
}

impl ProgressMonitorBuilder {
    /// A builder for a monitor of `total` fetches, with nothing else set.
    pub fn new(total: usize) -> (r: Self)
        ensures
            r.total == total,
            r.template is None,
            r.progress_chars is None,
            r.initial_message is None,
            r.prefix@.len() == 0,
    {
        ProgressMonitorBuilder {
            total,
            template: None,
            progress_chars: None,
            initial_message: None,
            prefix: String::new(),
        }
    }

    /// Sets the template of the bar.
    pub fn template(self, template: &str) -> (r: Self)
        ensures
            opt_text(r.template) == Some(template@),
            r.total == self.total,
            opt_text(r.progress_chars) == opt_text(self.progress_chars),
            opt_text(r.initial_message) == opt_text(self.initial_message),
            r.prefix@ == self.prefix@,
    {
        let mut b = self;
        b.template = Some(template.to_owned());
        b
    }

    /// Sets the characters that the bar is drawn with.
    pub fn progress_chars(self, chars: &str) -> (r: Self)
        ensures
            opt_text(r.progress_chars) == Some(chars@),
            r.total == self.total,
            opt_text(r.template) == opt_text(self.template),
            opt_text(r.initial_message) == opt_text(self.initial_message),
            r.prefix@ == self.prefix@,
    {
        let mut b = self;
        b.progress_chars = Some(chars.to_owned());
        b
    }

    /// Sets the message that is shown before the first fetch ends.
    pub fn initial_message(self, message: &str) -> (r: Self)
        ensures
            opt_text(r.initial_message) == Some(message@),
            r.total == self.total,
            opt_text(r.template) == opt_text(self.template),
            opt_text(r.progress_chars) == opt_text(self.progress_chars),
            r.prefix@ == self.prefix@,
    {
        let mut b = self;
        b.initial_message = Some(message.to_owned());
        b
    }

    /// Sets the prefix that is shown before the bar.
    pub fn set_prefix(self, prefix: &str) -> (r: Self)
        ensures
            r.prefix@ == prefix@,
            r.total == self.total,
            opt_text(r.template) == opt_text(self.template),
            opt_text(r.progress_chars) == opt_text(self.progress_chars),
            opt_text(r.initial_message) == opt_text(self.initial_message),
    {
        let mut b = self;
        b.prefix = prefix.to_owned();
        b
    }

    /// The monitor that the settings describe, with nothing counted yet.
    pub fn build(self) -> (r: ProgressMonitor)
        ensures
            r@ == ProgressView::fresh(self.total, self.prefix@),
    {
        ProgressMonitor {
            completed: 0,
            errors: 0,
            total: self.total,
            prefix: self.prefix,
            finished: false,
        }
    }
}

} // verus!

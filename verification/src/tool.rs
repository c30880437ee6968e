//! Finding the capture tool: where it may lie, and what is said when it
//! does not lie there or does not run.

use crate::text::chars_of;
use crate::text::push_all;
use crate::text::push_str;
use crate::text::string_of;
use crate::volume::texts;
use vstd::prelude::*;

verus! {

/// The parts of a text between the separators, from `from` on, after the
/// characters `current` of a part that has begun. A text without a separator
/// is one part; an empty text is one empty part.
pub open spec fn parts_between(s: Seq<char>, sep: char, from: int, current: Seq<char>) -> Seq<
    Seq<char>,
>
    decreases s.len() - from,
{
    if from < 0 || from >= s.len() {
        seq![current]
    } else if s[from] == sep {
        seq![current] + parts_between(s, sep, from + 1, Seq::empty())
    } else {
        parts_between(s, sep, from + 1, current.push(s[from]))
    }
}

/// The separator between the directories of a search path.
pub open spec fn path_separator(windows: bool) -> char {
    if windows {
        ';'
    } else {
        ':'
    }
}

/// The path of a file of the given name in a directory.
pub open spec fn file_in(dir: Seq<char>, name: Seq<char>, windows: bool) -> Seq<char> {
    dir + (if windows {
        seq!['\\']
    } else {
        seq!['/']
    }) + name
}

/// The places where a tool of the given name may lie: the file of that
/// name in each directory of the search path, in the order of the path.
pub open spec fn candidates_of(path_env: Seq<char>, name: Seq<char>, windows: bool) -> Seq<
    Seq<char>,
> {
    parts_between(path_env, path_separator(windows), 0, Seq::empty()).map_values(
        |dir: Seq<char>| file_in(dir, name, windows),
    )
}

/// The places where a tool of the given name may lie, for a search path in
/// the form of the given system.
pub fn path_candidates(path_env: &str, exe_name: &str, windows: bool) -> (r: Vec<String>)
    ensures
        texts(r@) == candidates_of(path_env@, exe_name@, windows),
{
    let text = chars_of(path_env);
    let name = chars_of(exe_name);
    let sep = if windows {
        ';'
    } else {
        ':'
    };
    let slash = if windows {
        '\\'
    } else {
        '/'
    };
    let mut out: Vec<String> = Vec::new();
    let mut current: Vec<char> = Vec::new();
    let mut i: usize = 0;
    let ghost place = |dir: Seq<char>| file_in(dir, exe_name@, windows);
    let ghost all = parts_between(text@, sep, 0, Seq::empty());
    assert(Seq::<Seq<char>>::empty().map_values(place) + parts_between(
        text@,
        sep,
        0,
        current@,
    ).map_values(place) =~= all.map_values(place));
    while i < text.len()
        invariant
            i <= text@.len(),
            name@ == exe_name@,
            sep == path_separator(windows),
            slash == (if windows {
                '\\'
            } else {
                '/'
            }),
            place == |dir: Seq<char>| file_in(dir, exe_name@, windows),
            all == parts_between(text@, sep, 0, Seq::empty()),
            texts(out@) + parts_between(text@, sep, i as int, current@).map_values(place)
                == all.map_values(place),
        decreases text@.len() - i,
    {
        let c = text[i];
        let ghost before = texts(out@);
        let ghost dir = current@;
        if c == sep {
            current.push(slash);
            push_all(&mut current, &name);
            assert(current@ =~= file_in(dir, exe_name@, windows));
            out.push(string_of(&current));
            current = Vec::new();
            assert(texts(out@) =~= before.push(file_in(dir, exe_name@, windows)));
            assert(parts_between(text@, sep, i as int, dir) == seq![dir] + parts_between(
                text@,
                sep,
                i + 1,
                Seq::empty(),
            ));
            assert((seq![dir] + parts_between(text@, sep, i + 1, Seq::empty())).map_values(place)
                =~= seq![file_in(dir, exe_name@, windows)] + parts_between(
                text@,
                sep,
                i + 1,
                Seq::empty(),
            ).map_values(place));
            assert(current@ =~= Seq::<char>::empty());
            assert(texts(out@) + parts_between(text@, sep, i + 1, current@).map_values(place)
                =~= all.map_values(place));
        } else {
            current.push(c);
            assert(parts_between(text@, sep, i as int, dir) == parts_between(
                text@,
                sep,
                i + 1,
                current@,
            ));
        }
        i += 1;
    }
    let ghost before = texts(out@);
    let ghost dir = current@;
    current.push(slash);
    push_all(&mut current, &name);
    assert(current@ =~= file_in(dir, exe_name@, windows));
    out.push(string_of(&current));
    assert(texts(out@) =~= before.push(file_in(dir, exe_name@, windows)));
    assert(parts_between(text@, sep, i as int, dir).map_values(place) =~= seq![
        file_in(dir, exe_name@, windows),
    ]);
    assert(texts(out@) =~= all.map_values(place));
    out
}

/// What is said when there is no search path.
pub open spec fn no_path_message_of(name: Seq<char>) -> Seq<char> {
    "无法找到"@ + name + "!"@
}

/// What is said when the tool lies nowhere.
pub open spec fn not_found_message_of(name: Seq<char>) -> Seq<char> {
    "找不到"@ + name + "!"@
}

/// What is said when the tool is there and does not run.
pub open spec fn cannot_run_message_of(name: Seq<char>) -> Seq<char> {
    name + "存在但是无法正常运行!"@
}

/// What is said when there is no search path.
pub fn no_path_message(exe_name: &str) -> (r: String)
    ensures
        r@ == no_path_message_of(exe_name@),
{
    let mut out: Vec<char> = Vec::new();
    push_str(&mut out, "无法找到");
    push_str(&mut out, exe_name);
    push_str(&mut out, "!");
    string_of(&out)
}

/// Whether the tool is in order, given whether it was found and whether it
/// answered when asked for its version; if not, what is said.
pub fn exe_verdict(exe_name: &str, exists: bool, runs: bool) -> (r: Result<(), String>)
    ensures
        match r {
            Ok(_) => exists && runs,
            Err(message) => message@ == if !exists {
                not_found_message_of(exe_name@)
            } else {
                cannot_run_message_of(exe_name@)
            } && !(exists && runs),
        },
{
    let mut out: Vec<char> = Vec::new();
    if !exists {
        push_str(&mut out, "找不到");
        push_str(&mut out, exe_name);
        push_str(&mut out, "!");
        Err(string_of(&out))
    } else if !runs {
        push_str(&mut out, exe_name);
        push_str(&mut out, "存在但是无法正常运行!");
        Err(string_of(&out))
    } else {
        Ok(())
    }
}

} // verus!

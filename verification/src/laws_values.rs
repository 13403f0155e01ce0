//! What holds of the plain values that the registry works with: texts, numbers,
//! paths, sizes, shells, commands and directories.

use std::time::SystemTime;

use vstd::prelude::*;
use vstd::utf8::*;

use crate::host::{epoch_millis, is_clock_reading, since_unix_epoch, whole_millis};
use crate::launch::{
    fitted_size, launch_failure_text, launch_plan, termination, CommandView, LaunchPlanView,
    LaunchStage, DEFAULT_COLS, DEFAULT_ROWS, MAX_COLS, MAX_ROWS, MIN_COLS, MIN_ROWS,
};
use crate::model::{
    numbered_title, observed_status, requested_text, MAX_RING_CHUNKS, MAX_TAIL_BYTES,
};
use crate::paths::{file_name, is_absolute, lemma_segment_start_bound, segment_start};
use crate::shell::{
    first_existing, resolved_shell, shell_candidates, shell_options, Platform, ShellHostView,
    ShellSpecView,
};
use crate::tail::{
    byte_len, byte_tail, law_tail_ends_with_last, law_tail_fits, law_tail_is_longest,
    lemma_byte_len_concat, lemma_byte_len_lower_bound, tail_truncated,
};
use crate::text::{
    decimal_digits, is_white_space, lowercase,
    text_less, trimmed, trimmed_end, trimmed_start,
};
use crate::workdir::{workdir_action, WorkdirActionView, WorkdirEventView};

verus! {

/// The limits of the registry.
pub proof fn law_limits()
    ensures
        (MIN_COLS, MAX_COLS, DEFAULT_COLS) == (20u16, 400u16, 80u16),
        (MIN_ROWS, MAX_ROWS, DEFAULT_ROWS) == (6u16, 200u16, 24u16),
        MAX_RING_CHUNKS == 4096,
        MAX_TAIL_BYTES == 262144,
{
}

/// Trimming cuts white space off both ends, all of it, and nothing else.
pub proof fn law_trimming_cuts_white_space_alone(s: Seq<char>)
    ensures
        exists|i: int, j: int|
            #![trigger s.subrange(i, j)]
            {
                &&& 0 <= i <= j <= s.len()
                &&& trimmed(s) == s.subrange(i, j)
                &&& forall|k: int| 0 <= k < i ==> is_white_space(#[trigger] s[k])
                &&& forall|k: int| j <= k < s.len() ==> is_white_space(#[trigger] s[k])
                &&& i < j ==> !is_white_space(s[i]) && !is_white_space(s[j - 1])
            },
{
    let i = lemma_start_cut(s);
    let rest = s.skip(i);
    let n = lemma_end_cut(rest);
    assert(trimmed(s) =~= s.subrange(i, i + n));
    assert forall|k: int| i + n <= k < s.len() implies is_white_space(#[trigger] s[k]) by {
        assert(rest[k - i] == s[k]);
    }
    if n > 0 {
        assert(rest[0] == s[i] && rest[n - 1] == s[i + n - 1]);
    }
}

proof fn lemma_start_cut(s: Seq<char>) -> (i: int)
    ensures
        0 <= i <= s.len(),
        trimmed_start(s) == s.skip(i),
        forall|k: int| 0 <= k < i ==> is_white_space(#[trigger] s[k]),
        i < s.len() ==> !is_white_space(s[i]),
    decreases s.len(),
{
    if s.len() > 0 && is_white_space(s[0]) {
        let rest = s.drop_first();
        let i = lemma_start_cut(rest);
        assert(rest.skip(i) =~= s.skip(i + 1));
        assert forall|k: int| 0 <= k < i + 1 implies is_white_space(#[trigger] s[k]) by {
            if k > 0 {
                assert(rest[k - 1] == s[k]);
            }
        }
        if i < rest.len() {
            assert(rest[i] == s[i + 1]);
        }
        i + 1
    } else {
        assert(s.skip(0) =~= s);
        0
    }
}

proof fn lemma_end_cut(s: Seq<char>) -> (n: int)
    ensures
        0 <= n <= s.len(),
        trimmed_end(s) == s.take(n),
        forall|k: int| n <= k < s.len() ==> is_white_space(#[trigger] s[k]),
        n > 0 ==> !is_white_space(s[n - 1]),
    decreases s.len(),
{
    if s.len() > 0 && is_white_space(s.last()) {
        let front = s.drop_last();
        let n = lemma_end_cut(front);
        assert(front.take(n) =~= s.take(n));
        assert forall|k: int| n <= k < s.len() implies is_white_space(#[trigger] s[k]) by {
            if k < front.len() {
                assert(front[k] == s[k]);
            }
        }
        n
    } else {
        assert(s.take(s.len() as int) =~= s);
        s.len() as int
    }
}

/// An optional argument that is missing or blank asks for nothing; any other is
/// taken without the white space around it.
pub proof fn law_blank_arguments_ask_for_nothing(s: Option<Seq<char>>)
    ensures
        s is None ==> requested_text(s) is None,
        s is Some && trimmed(s->Some_0).len() == 0 ==> requested_text(s) is None,
        s is Some && trimmed(s->Some_0).len() > 0 ==> requested_text(s) == Some(
            trimmed(s->Some_0),
        ),
{
}

/// Lower case turns each of `A` to `Z` into the letter 32 places on, and keeps
/// every other character and the length.
pub proof fn law_lowercase_changes_capitals_alone(s: Seq<char>)
    ensures
        lowercase(s).len() == s.len(),
        forall|i: int|
            0 <= i < s.len() ==> if 65 <= (s[i] as u32) <= 90 {
                (#[trigger] lowercase(s)[i]) as u32 == s[i] as u32 + 32
            } else {
                lowercase(s)[i] == s[i]
            },
{
}

/// A text comes before another where it is a shorter beginning of it, or where
/// it has the smaller character at the first place where they differ; in no
/// other case.
pub proof fn law_texts_are_ordered_by_the_first_difference(a: Seq<char>, b: Seq<char>, i: int)
    requires
        0 <= i <= a.len(),
        i <= b.len(),
        a.take(i) == b.take(i),
    ensures
        i == a.len() ==> (text_less(a, b) <==> a.len() < b.len()),
        i < a.len() && i == b.len() ==> !text_less(a, b),
        i < a.len() && i < b.len() && a[i] != b[i] ==> (text_less(a, b) <==> a[i] < b[i]),
    decreases i,
{
    if i > 0 {
        assert(a[0] == a.take(i)[0] && b[0] == b.take(i)[0]);
        let x = a.drop_first();
        let y = b.drop_first();
        assert(x.take(i - 1) =~= a.take(i).drop_first());
        assert(y.take(i - 1) =~= b.take(i).drop_first());
        law_texts_are_ordered_by_the_first_difference(x, y, i - 1);
    }
}

/// The number that decimal digits stand for.
pub open spec fn digits_value(s: Seq<char>) -> int
    decreases s.len(),
{
    if s.len() == 0 {
        0
    } else {
        digits_value(s.drop_last()) * 10 + (s.last() as int - 48)
    }
}

/// Whether a text is the decimal form of a number: digits alone, at least one,
/// with no zero in front of another digit.
pub open spec fn is_decimal_of(s: Seq<char>, n: nat) -> bool {
    &&& s.len() > 0
    &&& forall|i: int| 0 <= i < s.len() ==> 48 <= (#[trigger] s[i]) as u32 <= 57
    &&& s.len() > 1 ==> s[0] as u32 != 48
    &&& digits_value(s) == n
}

/// A number that is written in decimal reads back as the same number.
pub proof fn law_decimal_reads_back(n: nat)
    ensures
        is_decimal_of(decimal_digits(n), n),
    decreases n,
{
    let s = decimal_digits(n);
    if n < 10 {
        assert(s.drop_last() =~= Seq::<char>::empty());
        reveal_with_fuel(digits_value, 2);
    } else {
        law_decimal_reads_back(n / 10);
        let front = decimal_digits(n / 10);
        assert(s.drop_last() =~= front);
        assert forall|i: int| 0 <= i < s.len() implies 48 <= (#[trigger] s[i]) as u32 <= 57 by {
            if i < front.len() {
                assert(front[i] == s[i]);
            }
        }
        assert(s[0] == front[0]);
        assert(s.last() as int == 48 + n % 10);
        assert(digits_value(s) == digits_value(front) * 10 + n % 10);
        if front.len() == 1 && front[0] as u32 == 48 {
            assert(front.drop_last() =~= Seq::<char>::empty());
            assert(digits_value(front) == 0) by {
                reveal_with_fuel(digits_value, 2);
            }
        }
    }
}

/// Whether a title is the word for a terminal and a number in decimal.
pub open spec fn is_numbered(title: Seq<char>, n: nat) -> bool {
    exists|digits: Seq<char>| title == "Terminal "@ + digits && #[trigger] is_decimal_of(digits, n)
}

/// A numbered title ends in its number.
pub proof fn law_numbered_title_shows_its_number(n: nat)
    ensures
        is_numbered(numbered_title(n), n),
{
    law_decimal_reads_back(n);
}

/// A size that is asked for is kept where it is in range, and is the nearest end
/// of the range where it is not. The two directions do not affect each other.
pub proof fn law_size_is_kept_or_nearest(cols: u16, rows: u16)
    ensures
        20 <= cols <= 400 ==> fitted_size(cols, rows).cols == cols,
        cols < 20 ==> fitted_size(cols, rows).cols == 20,
        cols > 400 ==> fitted_size(cols, rows).cols == 400,
        6 <= rows <= 200 ==> fitted_size(cols, rows).rows == rows,
        rows < 6 ==> fitted_size(cols, rows).rows == 6,
        rows > 200 ==> fitted_size(cols, rows).rows == 200,
{
}

/// Whether a terminal has the size that was asked for, where nothing asked for
/// means 80 columns and 24 rows.
pub open spec fn is_size_for(
    asked_cols: Option<u16>,
    asked_rows: Option<u16>,
    cols: u16,
    rows: u16,
) -> bool {
    &&& asked_cols is None ==> cols == 80
    &&& asked_cols matches Some(n) ==> (20 <= n <= 400 ==> cols == n) && (n < 20 ==> cols == 20)
        && (n > 400 ==> cols == 400)
    &&& asked_rows is None ==> rows == 24
    &&& asked_rows matches Some(n) ==> (6 <= n <= 200 ==> rows == n) && (n < 6 ==> rows == 6) && (n
        > 200 ==> rows == 200)
}

/// Whether `output` and `truncated` tell of the last `max` bytes of the chunks:
/// the output is an end of what they hold together, it keeps to `max` bytes, no
/// longer end does, and what does not fit is reported. Where the chunks take
/// exactly `max` bytes, an oldest chunk without text counts as left out.
pub open spec fn is_tail_of(
    chunks: Seq<Seq<char>>,
    max: nat,
    output: Seq<char>,
    truncated: bool,
) -> bool {
    let all = chunks.flatten();
    let total = encode_utf8(all).len();
    &&& output.len() <= all.len()
    &&& output == all.skip(all.len() - output.len())
    &&& encode_utf8(output).len() <= max
    &&& forall|start: int|
        0 <= start < all.len() - output.len() ==> encode_utf8(#[trigger] all.skip(start)).len()
            > max
    &&& total <= max ==> output == all
    &&& chunks.len() > 0 && encode_utf8(chunks.last()).len() <= max ==> {
        &&& chunks.last().len() <= output.len()
        &&& output.skip(output.len() - chunks.last().len()) == chunks.last()
    }
    &&& total > max ==> truncated
    &&& total < max ==> !truncated
    &&& total == max ==> (truncated <==> chunks.len() > 0 && chunks[0].len() == 0)
}

/// What is read back of a session's chunks is their tail.
pub proof fn law_tail_of_chunks(chunks: Seq<Seq<char>>, max: nat)
    ensures
        is_tail_of(
            chunks,
            max,
            byte_tail(chunks.flatten(), max),
            tail_truncated(chunks, max),
        ),
{
    let all = chunks.flatten();
    let output = byte_tail(all, max);
    law_tail_fits(all, max);
    assert forall|start: int| 0 <= start < all.len() - output.len() implies encode_utf8(
        #[trigger] all.skip(start),
    ).len() > max by {
        if byte_len(all.skip(start)) <= max {
            law_tail_is_longest(all, max, (all.len() - start) as nat);
        }
    }
    assert(all.skip(0) =~= all);
    if chunks.len() > 0 {
        let last = chunks.last();
        let before = chunks.drop_last();
        assert(chunks =~= before.push(last));
        before.lemma_flatten_push(last);
        if byte_len(last) <= max {
            law_tail_ends_with_last(before.flatten(), last, max);
            assert(output.skip(output.len() - last.len()) =~= last);
        }
        assert(all =~= chunks[0] + chunks.drop_first().flatten());
        lemma_byte_len_concat(chunks[0], chunks.drop_first().flatten());
        lemma_byte_len_lower_bound(chunks[0]);
        if chunks[0].len() == 0 {
            assert(encode_utf8(chunks[0]).len() == 0);
        }
    }
}

/// A path is absolute where it begins with a slash, and in no other case.
pub proof fn law_absolute_paths_begin_with_a_slash(path: Seq<char>, rest: Seq<char>)
    ensures
        is_absolute(seq!['/'] + rest),
        is_absolute(path) ==> path == seq!['/'] + path.drop_first(),
{
    if is_absolute(path) {
        assert(path =~= seq!['/'] + path.drop_first());
    }
}

/// Whether `path` is `head`, then the name `name`, then `rest`: the head is
/// empty or ends in a slash, the name is a segment other than `.` and `..`, and
/// the rest is made of slashes and segments `.`.
pub open spec fn splits_at_name(
    path: Seq<char>,
    head: Seq<char>,
    name: Seq<char>,
    rest: Seq<char>,
) -> bool {
    &&& path == head + name + rest
    &&& head.len() > 0 ==> head.last() == '/'
    &&& name.len() > 0
    &&& !name.contains('/')
    &&& name != seq!['.']
    &&& name != seq!['.', '.']
    &&& is_trailing(rest)
}

/// Whether a text is made of slashes and segments `.`, and begins with a slash.
pub open spec fn is_trailing(rest: Seq<char>) -> bool {
    &&& rest.len() > 0 ==> rest[0] == '/'
    &&& forall|i: int|
        0 <= i < rest.len() ==> (#[trigger] rest[i]) == '/' || (rest[i] == '.' && i > 0 && rest[i
            - 1] == '/')
}

proof fn lemma_segment_start_behind(head: Seq<char>, segment: Seq<char>)
    requires
        head.len() > 0 ==> head.last() == '/',
        !segment.contains('/'),
    ensures
        segment_start(head + segment) == head.len(),
    decreases segment.len(),
{
    let path = head + segment;
    if segment.len() == 0 {
        assert(path =~= head);
    } else {
        assert(path.last() == segment.last());
        assert(segment.contains(segment.last()));
        let shorter = segment.drop_last();
        assert(!shorter.contains('/')) by {
            if shorter.contains('/') {
                let k = choose|k: int| 0 <= k < shorter.len() && shorter[k] == '/';
                assert(segment[k] == '/');
            }
        }
        assert(path.drop_last() =~= head + shorter);
        lemma_segment_start_behind(head, shorter);
    }
}

/// The name of a path that splits at a name is that name, whatever stands before
/// it.
pub proof fn law_file_name_is_the_last_name(
    path: Seq<char>,
    head: Seq<char>,
    name: Seq<char>,
    rest: Seq<char>,
)
    requires
        splits_at_name(path, head, name, rest),
    ensures
        file_name(path) == Some(name),
    decreases rest.len(),
{
    if rest.len() == 0 {
        assert(path =~= head + name);
        assert(path.last() == name.last());
        assert(name.contains(name.last()));
        let shorter = name.drop_last();
        assert(!shorter.contains('/')) by {
            if shorter.contains('/') {
                let k = choose|k: int| 0 <= k < shorter.len() && shorter[k] == '/';
                assert(name[k] == '/');
            }
        }
        assert(path.drop_last() =~= head + shorter);
        lemma_segment_start_behind(head, shorter);
        assert(path.skip(head.len() as int) =~= name);
    } else {
        let shorter = rest.drop_last();
        assert(path.last() == rest.last());
        assert(path.drop_last() =~= head + name + shorter);
        assert(is_trailing(shorter)) by {
            assert forall|i: int| 0 <= i < shorter.len() implies (#[trigger] shorter[i]) == '/'
                || (shorter[i] == '.' && i > 0 && shorter[i - 1] == '/') by {
                assert(rest[i] == shorter[i]);
                if i > 0 {
                    assert(rest[i - 1] == shorter[i - 1]);
                }
            }
        }
        law_file_name_is_the_last_name(path.drop_last(), head, name, shorter);
        assert(rest[rest.len() - 1] == rest.last());
        if path.last() != '/' {
            let front = path.drop_last();
            assert(front.last() == rest[rest.len() - 2]);
            assert(segment_start(front) == front.len());
            assert(path.skip(front.len() as int) =~= seq!['.']);
            assert(path.take(front.len() as int) =~= front);
        }
    }
}

proof fn lemma_segment(path: Seq<char>)
    ensures
        segment_start(path) <= path.len(),
        !path.skip(segment_start(path) as int).contains('/'),
        segment_start(path) > 0 ==> path[segment_start(path) - 1] == '/',
    decreases path.len(),
{
    if path.len() > 0 && path.last() != '/' {
        let front = path.drop_last();
        lemma_segment(front);
        let start = segment_start(path) as int;
        let segment = path.skip(start);
        if segment.contains('/') {
            let k = choose|k: int| 0 <= k < segment.len() && segment[k] == '/';
            if start + k < front.len() {
                assert(front.skip(start)[k] == '/');
            }
        }
    }
}

/// A name that a path has is where the path splits.
pub proof fn law_file_name_splits_the_path(path: Seq<char>)
    ensures
        file_name(path) matches Some(name) ==> exists|head: Seq<char>, rest: Seq<char>|
            splits_at_name(path, head, name, rest),
    decreases path.len(),
{
    if file_name(path) is Some {
        let name = file_name(path)->Some_0;
        let front = path.drop_last();
        if path.last() == '/' {
            law_file_name_splits_the_path(front);
            let (head, rest) = choose|head: Seq<char>, rest: Seq<char>|
                splits_at_name(front, head, name, rest);
            let more = rest.push('/');
            assert(path =~= front.push('/'));
            assert(path =~= head + name + more);
            assert(splits_at_name(path, head, name, more));
        } else {
            lemma_segment_start_bound(front);
            lemma_segment(front);
            let start = segment_start(front) as int;
            let segment = path.skip(start);
            assert(!segment.contains('/')) by {
                if segment.contains('/') {
                    let k = choose|k: int| 0 <= k < segment.len() && segment[k] == '/';
                    if start + k < front.len() {
                        assert(front.skip(start)[k] == '/');
                    }
                }
            }
            let before = path.take(start);
            if segment == seq!['.'] {
                law_file_name_splits_the_path(before);
                let (head, rest) = choose|head: Seq<char>, rest: Seq<char>|
                    splits_at_name(before, head, name, rest);
                let more = rest.push('.');
                assert(before.last() == '/');
                assert(rest.len() > 0) by {
                    if rest.len() == 0 {
                        assert(before.last() == name.last());
                        assert(name.contains(name.last()));
                    }
                }
                assert(rest.last() == before.last());
                assert(path =~= before + segment);
                assert(path =~= head + name + more);
                assert(splits_at_name(path, head, name, more));
            } else {
                let rest = Seq::<char>::empty();
                assert(path =~= before + segment + rest);
                assert(splits_at_name(path, before, segment, rest));
            }
        }
    }
}

/// Whether `label` is what a command is shown as: the last name of its path, and
/// a word for shells where it has none.
pub open spec fn is_label_of(command: Seq<char>, label: Seq<char>) -> bool {
    ||| exists|head: Seq<char>, rest: Seq<char>| splits_at_name(command, head, label, rest)
    ||| {
        &&& label == "shell"@
        &&& forall|head: Seq<char>, name: Seq<char>, rest: Seq<char>|
            !splits_at_name(command, head, name, rest)
    }
}

/// Whether `candidates` are the shells to look for on a platform, in order.
pub open spec fn are_candidates(platform: Platform, candidates: Seq<Seq<char>>) -> bool {
    &&& candidates.len() == 3
    &&& platform is MacOs ==> candidates[0] == "/bin/zsh"@ && candidates[1] == "/bin/bash"@
    &&& !(platform is MacOs) ==> candidates[0] == "/bin/bash"@ && candidates[1] == "/bin/zsh"@
    &&& candidates[2] == "/bin/sh"@
}

/// The shells that are looked for.
pub proof fn law_candidates(platform: Platform)
    ensures
        are_candidates(platform, shell_candidates(platform)),
{
}

/// The candidate that is taken exists, and none before it does; none is taken
/// only where none exists.
pub proof fn law_first_existing_candidate_is_taken(
    candidates: Seq<Seq<char>>,
    existing: Seq<Seq<char>>,
)
    ensures
        match first_existing(candidates, existing) {
            Some(taken) => exists|i: int|
                {
                    &&& 0 <= i < candidates.len()
                    &&& #[trigger] candidates[i] == taken
                    &&& existing.contains(taken)
                    &&& forall|k: int| 0 <= k < i ==> !existing.contains(#[trigger] candidates[k])
                },
            None => forall|k: int|
                0 <= k < candidates.len() ==> !existing.contains(#[trigger] candidates[k]),
        },
    decreases candidates.len(),
{
    if candidates.len() > 0 && !existing.contains(candidates[0]) {
        let rest = candidates.drop_first();
        law_first_existing_candidate_is_taken(rest, existing);
        match first_existing(rest, existing) {
            Some(taken) => {
                let i = choose|i: int|
                    {
                        &&& 0 <= i < rest.len()
                        &&& #[trigger] rest[i] == taken
                        &&& existing.contains(taken)
                        &&& forall|k: int| 0 <= k < i ==> !existing.contains(#[trigger] rest[k])
                    };
                assert(candidates[i + 1] == taken);
                assert forall|k: int| 0 <= k < i + 1 implies !existing.contains(
                    #[trigger] candidates[k],
                ) by {
                    if k > 0 {
                        assert(rest[k - 1] == candidates[k]);
                    }
                }
            },
            None => {
                assert forall|k: int| 0 <= k < candidates.len() implies !existing.contains(
                    #[trigger] candidates[k],
                ) by {
                    if k > 0 {
                        assert(rest[k - 1] == candidates[k]);
                    }
                }
            },
        }
    } else if candidates.len() > 0 {
        assert(candidates[0] == first_existing(candidates, existing)->Some_0);
    }
}

/// Whether the environment of a host names a shell: a path that begins with a
/// slash once the white space around it is gone.
pub open spec fn names_login_shell(host: ShellHostView) -> bool {
    &&& host.login_shell is Some
    &&& trimmed(host.login_shell->Some_0).len() > 0
    &&& trimmed(host.login_shell->Some_0)[0] == '/'
}

/// Whether `r` is the shell that a request gets. On Windows a name chooses
/// between two, whatever its case, and another name is refused. Elsewhere the
/// request does not matter: the login shell is run, or else the first candidate
/// that exists.
pub open spec fn is_shell_for(
    request: Option<Seq<char>>,
    host: ShellHostView,
    r: Result<ShellSpecView, Seq<char>>,
) -> bool {
    if host.platform is Windows {
        let blank = request is None || trimmed(request->Some_0).len() == 0;
        let name = lowercase(trimmed(request->Some_0));
        if blank || name == "cmd"@ || name == "default"@ {
            &&& r matches Ok(shell)
            &&& shell.label == "cmd"@
            &&& shell.command == "cmd.exe"@
            &&& shell.args.len() == 0
        } else if name == "powershell"@ || name == "pwsh"@ {
            &&& r matches Ok(shell)
            &&& shell.label == "PowerShell"@
            &&& shell.command == "powershell.exe"@
            &&& shell.args == seq!["-NoLogo"@, "-ExecutionPolicy"@, "Bypass"@]
        } else {
            &&& r matches Err(message)
            &&& message == "unsupported Windows terminal shell: "@ + name
        }
    } else {
        match r {
            Ok(shell) => {
                &&& shell.args.len() == 0
                &&& is_label_of(shell.command, shell.label)
                &&& if names_login_shell(host) {
                    shell.command == trimmed(host.login_shell->Some_0)
                } else {
                    is_first_shell(host, shell.command)
                }
            },
            Err(message) => {
                &&& message == "failed to resolve login shell"@
                &&& !names_login_shell(host)
                &&& !host.existing.contains("/bin/zsh"@)
                &&& !host.existing.contains("/bin/bash"@)
                &&& !host.existing.contains("/bin/sh"@)
            },
        }
    }
}

/// Whether `command` is the candidate that a host runs: one that exists, with
/// none of the candidates before it there.
pub open spec fn is_first_shell(host: ShellHostView, command: Seq<char>) -> bool {
    let bash = "/bin/bash"@;
    let zsh = "/bin/zsh"@;
    let (first, second) = if host.platform is MacOs {
        (zsh, bash)
    } else {
        (bash, zsh)
    };
    &&& host.existing.contains(command)
    &&& command == first || (!host.existing.contains(first) && (command == second || (
    !host.existing.contains(second) && command == "/bin/sh"@)))
}

/// A request gets the shell that it should.
pub proof fn law_shell_is_chosen(request: Option<Seq<char>>, host: ShellHostView)
    ensures
        is_shell_for(request, host, resolved_shell(request, host)),
{
    let r = resolved_shell(request, host);
    if host.platform is Windows {
        reveal_strlit("cmd");
        reveal_strlit("default");
        reveal_strlit("powershell");
        reveal_strlit("pwsh");
        assert("default"@.len() != "powershell"@.len() && "default"@.len() != "pwsh"@.len());
        assert("cmd"@.len() != "powershell"@.len() && "cmd"@.len() != "pwsh"@.len());
    } else {
        law_first_existing_candidate_is_taken(shell_candidates(host.platform), host.existing);
        let candidates = shell_candidates(host.platform);
        if r is Ok {
            let shell = r->Ok_0;
            law_file_name_splits_the_path(shell.command);
            if file_name(shell.command) is None {
                assert forall|head: Seq<char>, name: Seq<char>, rest: Seq<char>|
                    !splits_at_name(shell.command, head, name, rest) by {
                    if splits_at_name(shell.command, head, name, rest) {
                        law_file_name_is_the_last_name(shell.command, head, name, rest);
                    }
                }
            }
            if !names_login_shell(host) {
                let i = choose|i: int|
                    {
                        &&& 0 <= i < candidates.len()
                        &&& #[trigger] candidates[i] == shell.command
                        &&& host.existing.contains(shell.command)
                        &&& forall|k: int|
                            0 <= k < i ==> !host.existing.contains(#[trigger] candidates[k])
                    };
                assert(i == 0 || i == 1 || i == 2);
                if i > 0 {
                    assert(!host.existing.contains(candidates[0]));
                }
                if i > 1 {
                    assert(!host.existing.contains(candidates[1]));
                }
            }
        } else {
            assert(!host.existing.contains(candidates[0]));
            assert(!host.existing.contains(candidates[1]));
            assert(!host.existing.contains(candidates[2]));
        }
    }
}

/// Windows offers the command prompt and PowerShell, and starts with the former;
/// any other host offers the shell that it runs, or `/bin/sh` where it finds
/// none.
pub proof fn law_offered_shells(host: ShellHostView)
    ensures
        ({
            let offered = shell_options(host);
            if host.platform is Windows {
                &&& offered.default_shell == "cmd"@
                &&& offered.options.len() == 2
                &&& offered.options[0].id == "cmd"@
                &&& offered.options[0].label == "cmd"@
                &&& offered.options[0].command == "cmd.exe"@
                &&& offered.options[1].id == "powershell"@
                &&& offered.options[1].label == "PowerShell"@
                &&& offered.options[1].command == "powershell.exe"@
            } else {
                let only = offered.options[0];
                let none: Seq<Seq<char>> = Seq::empty();
                &&& offered.default_shell == "default"@
                &&& offered.options.len() == 1
                &&& only.id == "default"@
                &&& is_shell_for(
                    None,
                    host,
                    Ok(ShellSpecView { label: only.label, command: only.command, args: none }),
                ) || (only.label == "sh"@ && only.command == "/bin/sh"@ && is_shell_for(
                    None,
                    host,
                    Err("failed to resolve login shell"@),
                ))
            }
        }),
{
    law_shell_is_chosen(None, host);
    if !(host.platform is Windows) {
        if let Ok(shell) = resolved_shell(None, host) {
            assert(shell.args =~= Seq::<Seq<char>>::empty());
        }
    }
}

/// Whether `r` is the plan for a terminal. A refused directory counts first,
/// then a request without a project, then the shell.
pub open spec fn is_plan_for(
    workdir: Result<Seq<char>, Seq<char>>,
    project_path_key: Option<Seq<char>>,
    shell: Option<Seq<char>>,
    cols: Option<u16>,
    rows: Option<u16>,
    host: ShellHostView,
    r: Result<LaunchPlanView, Seq<char>>,
) -> bool {
    let named = project_path_key is Some && trimmed(project_path_key->Some_0).len() > 0;
    match workdir {
        Err(message) => r matches Err(m) && m == message,
        Ok(cwd) => if !named && trimmed(cwd).len() == 0 {
            r matches Err(m) && m == "project_path_key is required"@
        } else {
            match r {
                Err(message) => is_shell_for(shell, host, Err(message)),
                Ok(plan) => {
                    &&& plan.cwd == cwd
                    &&& named ==> plan.project_path_key == trimmed(project_path_key->Some_0)
                    &&& !named ==> plan.project_path_key == trimmed(cwd)
                    &&& is_shell_for(shell, host, Ok(plan.shell))
                    &&& is_size_for(cols, rows, plan.size.cols, plan.size.rows)
                    &&& plan.env.len() == 2
                    &&& plan.env[0] == ("TERM"@, "xterm-256color"@)
                    &&& plan.env[1] == ("COLORTERM"@, "truecolor"@)
                },
            }
        },
    }
}

/// What is planned is what was asked for.
pub proof fn law_plan_follows_the_request(
    workdir: Result<Seq<char>, Seq<char>>,
    project_path_key: Option<Seq<char>>,
    shell: Option<Seq<char>>,
    cols: Option<u16>,
    rows: Option<u16>,
    host: ShellHostView,
)
    ensures
        is_plan_for(
            workdir,
            project_path_key,
            shell,
            cols,
            rows,
            host,
            launch_plan(workdir, project_path_key, shell, cols, rows, host),
        ),
{
    law_shell_is_chosen(shell, host);
}

/// A step of a launch that failed is named in the message, with its error.
pub proof fn law_launch_failures_are_named(error: Seq<char>)
    ensures
        launch_failure_text(LaunchStage::OpenPty, error) == "failed to open terminal pty: "@
            + error,
        launch_failure_text(LaunchStage::SpawnShell, error) == "failed to spawn terminal shell: "@
            + error,
        launch_failure_text(LaunchStage::OpenReader, error) == "failed to open terminal reader: "@
            + error,
        launch_failure_text(LaunchStage::OpenWriter, error) == "failed to open terminal writer: "@
            + error,
{
}

/// Whether `command` stops the process `pid` and its descendants: nothing is run
/// where there is no process, and otherwise the process is named in decimal.
pub open spec fn stops_process(
    pid: Option<u32>,
    platform: Platform,
    command: Option<CommandView>,
) -> bool {
    if pid is None || pid == Some(0u32) {
        command is None
    } else if platform is Windows {
        &&& command matches Some(c)
        &&& c.program == "taskkill"@
        &&& c.args.len() == 4
        &&& c.args[0] == "/PID"@
        &&& is_decimal_of(c.args[1], pid->Some_0 as nat)
        &&& c.args[2] == "/T"@
        &&& c.args[3] == "/F"@
    } else {
        &&& command matches Some(c)
        &&& c.program == "kill"@
        &&& c.args.len() == 2
        &&& c.args[0] == "-TERM"@
        &&& c.args[1].len() > 0
        &&& c.args[1][0] == '-'
        &&& is_decimal_of(c.args[1].drop_first(), pid->Some_0 as nat)
    }
}

/// The command that stops a process names that process.
pub proof fn law_termination_names_the_process(pid: Option<u32>, platform: Platform)
    ensures
        stops_process(pid, platform, termination(pid, platform)),
{
    if let Some(n) = pid {
        law_decimal_reads_back(n as nat);
        reveal_strlit("-");
        assert(("-"@ + decimal_digits(n as nat)).drop_first() =~= decimal_digits(n as nat));
    }
}

/// Each step of a request for a directory: what is refused, with which message,
/// and what comes next.
pub proof fn law_workdir_steps(workdir: Seq<char>, path: Seq<char>, error: Seq<char>)
    ensures
        trimmed(workdir).len() == 0 ==> workdir_action(workdir, WorkdirEventView::Requested)
            == WorkdirActionView::Refuse("workdir is required"@),
        trimmed(workdir).len() > 0 ==> workdir_action(workdir, WorkdirEventView::Requested)
            == WorkdirActionView::Expand(trimmed(workdir)),
        workdir_action(workdir, WorkdirEventView::Expanded { absolute: false })
            == WorkdirActionView::Refuse("workdir must be absolute: "@ + workdir),
        workdir_action(workdir, WorkdirEventView::Expanded { absolute: true })
            == WorkdirActionView::Inspect,
        workdir_action(workdir, WorkdirEventView::Inspected { is_dir: None })
            == WorkdirActionView::Refuse("workdir does not exist: "@ + workdir),
        workdir_action(workdir, WorkdirEventView::Inspected { is_dir: Some(false) })
            == WorkdirActionView::Refuse("workdir must be a directory: "@ + workdir),
        workdir_action(workdir, WorkdirEventView::Inspected { is_dir: Some(true) })
            == WorkdirActionView::Canonicalize,
        workdir_action(workdir, WorkdirEventView::Canonicalized(Ok(path)))
            == WorkdirActionView::Accept(path),
        workdir_action(workdir, WorkdirEventView::Canonicalized(Err(error)))
            == WorkdirActionView::Refuse("failed to canonicalize workdir: "@ + error),
{
}

/// The status of a session is the first that was observed for it, and none where
/// nothing was observed.
pub proof fn law_first_observation_counts(
    exits: Seq<(Seq<char>, Option<u32>)>,
    id: Seq<char>,
    i: int,
)
    requires
        0 <= i <= exits.len(),
        forall|k: int| 0 <= k < i ==> (#[trigger] exits[k]).0 != id,
    ensures
        i < exits.len() && exits[i].0 == id ==> observed_status(exits, id) == exits[i].1,
        i == exits.len() ==> observed_status(exits, id) is None,
    decreases i,
{
    if i > 0 {
        let rest = exits.drop_first();
        assert forall|k: int| 0 <= k < i - 1 implies (#[trigger] rest[k]).0 != id by {
            assert(rest[k] == exits[k + 1]);
        }
        assert(exits[0].0 != id);
        law_first_observation_counts(rest, id, i - 1);
    }
}

/// A time is counted in the whole milliseconds since the epoch; a time before it
/// counts as the epoch.
pub proof fn law_times_are_counted_from_the_epoch(time: SystemTime)
    ensures
        since_unix_epoch(time) matches Some(elapsed) ==> epoch_millis(time) == whole_millis(
            elapsed,
        ),
        since_unix_epoch(time) is None ==> epoch_millis(time) == 0,
{
}

/// A reading of the clock is what some time comes to: its whole milliseconds
/// since the epoch, or zero for one before it.
pub proof fn law_clock_readings_come_from_a_time(now: u128)
    requires
        is_clock_reading(now),
    ensures
        exists|time: SystemTime|
            match #[trigger] since_unix_epoch(time) {
                Some(elapsed) => now == whole_millis(elapsed),
                None => now == 0,
            },
{
    let time = choose|time: SystemTime| now == #[trigger] epoch_millis(time);
    law_times_are_counted_from_the_epoch(time);
    let since = since_unix_epoch(time);
}

} // verus!

//! The Unix rules for absolute paths and for the name at the end of a path,
//! whatever the machine that this is compiled for.

use vstd::prelude::*;
use vstd::string::*;

verus! {

/// A Unix path is absolute if it starts at the root.
pub open spec fn is_absolute(path: Seq<char>) -> bool {
    path.len() > 0 && path[0] == '/'
}

/// Where the text after the last separator begins.
pub open spec fn segment_start(path: Seq<char>) -> nat
    decreases path.len(),
{
    if path.len() == 0 || path.last() == '/' {
        path.len()
    } else {
        segment_start(path.drop_last())
    }
}

/// The final component of a Unix path, if it names a file: trailing separators
/// and `.` segments are skipped, and a path that ends in `..` has none.
pub open spec fn file_name(path: Seq<char>) -> Option<Seq<char>>
    decreases path.len(),
{
    if path.len() == 0 {
        None
    } else if path.last() == '/' {
        file_name(path.drop_last())
    } else {
        let start = segment_start(path.drop_last());
        let segment = path.skip(start as int);
        if segment == seq!['.'] {
            if start == 0 {
                None
            } else {
                proof {
                    lemma_segment_start_bound(path.drop_last());
                }
                file_name(path.take(start as int))
            }
        } else if segment == seq!['.', '.'] {
            None
        } else {
            Some(segment)
        }
    }
}

/// A segment starts within the path.
pub proof fn lemma_segment_start_bound(path: Seq<char>)
    ensures
        segment_start(path) <= path.len(),
    decreases path.len(),
{
    if path.len() > 0 && path.last() != '/' {
        lemma_segment_start_bound(path.drop_last());
    }
}

proof fn lemma_dots(segment: Seq<char>)
    ensures
        segment == seq!['.'] <==> segment.len() == 1 && segment[0] == '.',
        segment == seq!['.', '.'] <==> segment.len() == 2 && segment[0] == '.' && segment[1] == '.',
{
    assert(segment.len() == 1 && segment[0] == '.' ==> segment =~= seq!['.']);
    assert(segment.len() == 2 && segment[0] == '.' && segment[1] == '.' ==> segment =~= seq![
        '.',
        '.',
    ]);
}

/// Tests whether a Unix path is absolute.
pub fn unix_is_absolute(path: &str) -> (r: bool)
    ensures
        r == is_absolute(path@),
{
    path.unicode_len() > 0 && path.get_char(0) == '/'
}

/// Finds where the segment that ends at `end` begins.
fn find_segment_start(path: &str, end: usize) -> (start: usize)
    requires
        0 < end <= path@.len(),
        path@[end - 1] != '/',
    ensures
        start == segment_start(path@.take(end as int)),
        start < end,
{
    let ghost whole = path@.take(end as int);
    let mut start: usize = end - 1;
    proof {
        assert(whole.drop_last() =~= path@.take(end - 1));
    }
    while start > 0 && path.get_char(start - 1) != '/'
        invariant
            whole == path@.take(end as int),
            start < end <= path@.len(),
            segment_start(whole) == segment_start(path@.take(start as int)),
        decreases start,
    {
        proof {
            assert(path@.take(start as int).drop_last() =~= path@.take(start - 1));
        }
        start = start - 1;
    }
    start
}

/// Finds the final component of a Unix path.
pub fn unix_file_name(path: &str) -> (r: Option<String>)
    ensures
        match r {
            Some(name) => file_name(path@) == Some(name@),
            None => file_name(path@) is None,
        },
{
    let mut end: usize = path.unicode_len();
    proof {
        assert(path@.take(end as int) =~= path@);
    }
    while end > 0
        invariant
            end <= path@.len(),
            file_name(path@) == file_name(path@.take(end as int)),
        decreases end,
    {
        let ghost whole = path@.take(end as int);
        assert(whole.drop_last() =~= path@.take(end - 1));
        if path.get_char(end - 1) == '/' {
            end = end - 1;
        } else {
            let start: usize = find_segment_start(path, end);
            let segment = path.substring_char(start, end);
            assert(segment@ =~= whole.skip(start as int));
            assert(whole.take(start as int) =~= path@.take(start as int));
            proof {
                lemma_dots(segment@);
                assert(segment@[0] == path@[start as int]);
                assert(end - start >= 2 ==> segment@[1] == path@[start + 1]);
            }
            if end - start == 1 && path.get_char(start) == '.' {
                if start == 0 {
                    return None;
                }
                end = start;
            } else if end - start == 2 && path.get_char(start) == '.' && path.get_char(start + 1)
                == '.' {
                return None;
            } else {
                return Some(segment.to_owned());
            }
        }
    }
    None
}

} // verus!

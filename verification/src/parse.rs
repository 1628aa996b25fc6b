//! The line-oriented property parser: comment handling and strict
//! `key=value` splitting, merging into a caller-supplied mapping.

use vstd::prelude::*;
use vstd::string::StrSliceExecFns;

use crate::error::Error;
use crate::props::Props;

verus! {

/// How many `=` characters a line holds.
pub open spec fn eq_count(s: Seq<char>) -> nat
    decreases s.len(),
{
    if s.len() == 0 {
        0
    } else {
        eq_count(s.drop_last()) + (if s.last() == '=' {
            1nat
        } else {
            0nat
        })
    }
}

/// Whether a line is skipped as a comment: comments enabled, the line is
/// non-empty and its first character is the comment character.
pub open spec fn is_comment_line(s: Seq<char>, comments: bool, comment_char: char) -> bool {
    comments && s.len() > 0 && s[0] == comment_char
}

/// A line is a valid property exactly when it holds a single `=`.
pub open spec fn line_valid(s: Seq<char>) -> bool {
    eq_count(s) == 1
}

/// The position of the first `=` in a line.
pub open spec fn eq_pos(s: Seq<char>) -> int {
    choose|i: int|
        0 <= i < s.len() && s[i] == '=' && (forall|j: int| 0 <= j < i ==> s[j] != '=')
}

/// The key of a valid line: the characters before its `=`.
pub open spec fn line_key(s: Seq<char>) -> Seq<char> {
    s.subrange(0, eq_pos(s))
}

/// The value of a valid line: the characters after its `=`.
pub open spec fn line_value(s: Seq<char>) -> Seq<char> {
    s.subrange(eq_pos(s) + 1, s.len() as int)
}

/// A line holds no `=` exactly when no position holds one.
proof fn lemma_eq_count_zero(s: Seq<char>)
    ensures
        eq_count(s) == 0 <==> (forall|j: int| 0 <= j < s.len() ==> s[j] != '='),
    decreases s.len(),
{
    if s.len() > 0 {
        lemma_eq_count_zero(s.drop_last());
        if eq_count(s) == 0 {
            assert forall|j: int| 0 <= j < s.len() implies s[j] != '=' by {
                if j < s.len() - 1 {
                    assert(s.drop_last()[j] == s[j]);
                }
            }
        } else {
            if s.last() != '=' {
                let j = choose|j: int| 0 <= j < s.drop_last().len() && s.drop_last()[j] == '=';
                assert(s[j] == '=');
            } else {
                assert(s[s.len() - 1] == '=');
            }
        }
    }
}

/// A line with an `=` has a first one.
proof fn lemma_first_eq_exists(s: Seq<char>)
    requires
        eq_count(s) >= 1,
    ensures
        exists|i: int|
            0 <= i < s.len() && s[i] == '=' && (forall|j: int| 0 <= j < i ==> s[j] != '='),
    decreases s.len(),
{
    if eq_count(s.drop_last()) >= 1 {
        lemma_first_eq_exists(s.drop_last());
        let i = choose|i: int|
            0 <= i < s.drop_last().len() && s.drop_last()[i] == '=' && (forall|j: int|
                0 <= j < i ==> s.drop_last()[j] != '=');
        assert(s[i] == '=');
        assert forall|j: int| 0 <= j < i implies s[j] != '=' by {
            assert(s.drop_last()[j] == s[j]);
        }
    } else {
        lemma_eq_count_zero(s.drop_last());
        let i = s.len() - 1;
        assert(s[i] == '=');
        assert forall|j: int| 0 <= j < i implies s[j] != '=' by {
            assert(s.drop_last()[j] == s[j]);
        }
    }
}

/// The first `=` of a line is the one and only position that has no `=`
/// before it, so `eq_pos` names it.
proof fn lemma_eq_pos_unique(s: Seq<char>, i: int)
    requires
        0 <= i < s.len(),
        s[i] == '=',
        forall|j: int| 0 <= j < i ==> s[j] != '=',
    ensures
        eq_pos(s) == i,
{
    lemma_eq_count_zero(s);
    lemma_first_eq_exists(s);
    let p = eq_pos(s);
    if p < i {
        assert(s[p] != '=');
    } else if i < p {
        assert(s[i] != '=');
    }
}

/// `eq_pos` of a valid line is in range, holds the `=`, and nothing
/// before it does.
pub proof fn lemma_eq_pos_of_valid(s: Seq<char>)
    requires
        eq_count(s) >= 1,
    ensures
        0 <= eq_pos(s) < s.len(),
        s[eq_pos(s)] == '=',
        forall|j: int| 0 <= j < eq_pos(s) ==> s[j] != '=',
{
    lemma_first_eq_exists(s);
    let i = choose|i: int|
        0 <= i < s.len() && s[i] == '=' && (forall|j: int| 0 <= j < i ==> s[j] != '=');
    lemma_eq_pos_unique(s, i);
}

/// Split one line into its key and value: `Some` exactly when the line
/// holds a single `=`, with the raw, untrimmed substrings around it.
pub fn split_line(line: &str) -> (r: Option<(String, String)>)
    ensures
        match r {
            Some(kv) => line_valid(line@) && kv.0@ == line_key(line@) && kv.1@ == line_value(
                line@,
            ),
            None => !line_valid(line@),
        },
{
    let n = line.unicode_len();
    let mut i: usize = 0;
    let mut count: usize = 0;
    let mut first: usize = 0;
    let mut have_first = false;
    while i < n
        invariant
            i <= n,
            n == line@.len(),
            count == eq_count(line@.take(i as int)),
            count <= i,
            have_first <==> count >= 1,
            have_first ==> first < i && line@[first as int] == '=' && (forall|j: int|
                0 <= j < first ==> line@[j] != '='),
        decreases n - i,
    {
        let c = line.get_char(i);
        proof {
            assert(line@.take(i + 1).drop_last() =~= line@.take(i as int));
            assert(line@.take(i + 1).last() == line@[i as int]);
            if !have_first && c == '=' {
                lemma_eq_count_zero(line@.take(i as int));
                assert forall|j: int| 0 <= j < i implies line@[j] != '=' by {
                    assert(line@.take(i as int)[j] == line@[j]);
                }
            }
        }
        if c == '=' {
            if !have_first {
                first = i;
                have_first = true;
            }
            count = count + 1;
        }
        i = i + 1;
    }
    proof {
        assert(line@.take(n as int) =~= line@);
    }
    if count != 1 {
        return None;
    }
    proof {
        lemma_eq_pos_unique(line@, first as int);
    }
    let key = line.substring_char(0, first).to_owned();
    let value = line.substring_char(first + 1, n).to_owned();
    Some((key, value))
}

/// Whether a line is acceptable to the parser: a comment or a valid property.
pub open spec fn line_ok(s: Seq<char>, comments: bool, comment_char: char) -> bool {
    is_comment_line(s, comments, comment_char) || line_valid(s)
}

/// Whether every line of a file is acceptable.
pub open spec fn lines_ok(lines: Seq<Seq<char>>, comments: bool, comment_char: char) -> bool {
    forall|i: int| 0 <= i < lines.len() ==> line_ok(lines[i], comments, comment_char)
}

/// The mapping after parsing a file's lines in order into `acc`: comments
/// are skipped, each valid line inserts its pair, and parsing stops at the
/// first invalid line.
pub open spec fn props_after(
    lines: Seq<Seq<char>>,
    comments: bool,
    comment_char: char,
    acc: Map<Seq<char>, Seq<char>>,
) -> Map<Seq<char>, Seq<char>>
    decreases lines.len(),
{
    if lines.len() == 0 {
        acc
    } else if is_comment_line(lines[0], comments, comment_char) {
        props_after(lines.drop_first(), comments, comment_char, acc)
    } else if line_valid(lines[0]) {
        props_after(
            lines.drop_first(),
            comments,
            comment_char,
            acc.insert(line_key(lines[0]), line_value(lines[0])),
        )
    } else {
        acc
    }
}

/// Whether parsing a file's lines would bind a key: some valid non-comment
/// line before any invalid line has it as its key.
pub open spec fn file_binds(
    lines: Seq<Seq<char>>,
    comments: bool,
    comment_char: char,
    key: Seq<char>,
) -> bool
    decreases lines.len(),
{
    if lines.len() == 0 {
        false
    } else if is_comment_line(lines[0], comments, comment_char) {
        file_binds(lines.drop_first(), comments, comment_char, key)
    } else if line_valid(lines[0]) {
        line_key(lines[0]) == key || file_binds(lines.drop_first(), comments, comment_char, key)
    } else {
        false
    }
}

/// The value the file's last line with the given key binds it to.
pub open spec fn file_bound_value(
    lines: Seq<Seq<char>>,
    comments: bool,
    comment_char: char,
    key: Seq<char>,
) -> Seq<char>
    decreases lines.len(),
{
    if lines.len() == 0 {
        Seq::empty()
    } else if is_comment_line(lines[0], comments, comment_char) {
        file_bound_value(lines.drop_first(), comments, comment_char, key)
    } else if line_valid(lines[0]) {
        if file_binds(lines.drop_first(), comments, comment_char, key) {
            file_bound_value(lines.drop_first(), comments, comment_char, key)
        } else if line_key(lines[0]) == key {
            line_value(lines[0])
        } else {
            file_bound_value(lines.drop_first(), comments, comment_char, key)
        }
    } else {
        Seq::empty()
    }
}

/// The tail of an acceptable file is acceptable.
proof fn lemma_lines_ok_drop_first(lines: Seq<Seq<char>>, comments: bool, comment_char: char)
    requires
        lines.len() > 0,
        lines_ok(lines, comments, comment_char),
    ensures
        lines_ok(lines.drop_first(), comments, comment_char),
{
    assert forall|i: int|
        0 <= i < lines.drop_first().len() implies line_ok(
        lines.drop_first()[i],
        comments,
        comment_char,
    ) by {
        assert(lines.drop_first()[i] == lines[i + 1]);
    }
}

/// A key the file never binds keeps whatever binding the accumulator gave it.
pub proof fn lemma_unbound_key_untouched(
    lines: Seq<Seq<char>>,
    comments: bool,
    comment_char: char,
    key: Seq<char>,
    acc: Map<Seq<char>, Seq<char>>,
)
    requires
        lines_ok(lines, comments, comment_char),
        !file_binds(lines, comments, comment_char, key),
    ensures
        props_after(lines, comments, comment_char, acc).contains_key(key) == acc.contains_key(key),
        acc.contains_key(key) ==> props_after(lines, comments, comment_char, acc)[key] == acc[key],
    decreases lines.len(),
{
    if lines.len() > 0 {
        lemma_lines_ok_drop_first(lines, comments, comment_char);
        assert(line_ok(lines[0], comments, comment_char));
        if is_comment_line(lines[0], comments, comment_char) {
            lemma_unbound_key_untouched(lines.drop_first(), comments, comment_char, key, acc);
        } else {
            let acc1 = acc.insert(line_key(lines[0]), line_value(lines[0]));
            lemma_unbound_key_untouched(lines.drop_first(), comments, comment_char, key, acc1);
        }
    }
}

/// A key the file binds ends bound to the file's value for it, whatever
/// the accumulator held before.
pub proof fn lemma_bound_key_value(
    lines: Seq<Seq<char>>,
    comments: bool,
    comment_char: char,
    key: Seq<char>,
    acc: Map<Seq<char>, Seq<char>>,
)
    requires
        lines_ok(lines, comments, comment_char),
        file_binds(lines, comments, comment_char, key),
    ensures
        props_after(lines, comments, comment_char, acc).contains_key(key),
        props_after(lines, comments, comment_char, acc)[key] == file_bound_value(
            lines,
            comments,
            comment_char,
            key,
        ),
    decreases lines.len(),
{
    lemma_lines_ok_drop_first(lines, comments, comment_char);
    assert(line_ok(lines[0], comments, comment_char));
    if is_comment_line(lines[0], comments, comment_char) {
        lemma_bound_key_value(lines.drop_first(), comments, comment_char, key, acc);
    } else {
        let acc1 = acc.insert(line_key(lines[0]), line_value(lines[0]));
        if file_binds(lines.drop_first(), comments, comment_char, key) {
            lemma_bound_key_value(lines.drop_first(), comments, comment_char, key, acc1);
        } else {
            lemma_unbound_key_untouched(lines.drop_first(), comments, comment_char, key, acc1);
        }
    }
}

/// Parse a file's lines into a caller-supplied mapping, later lines and
/// later files overwriting earlier bindings of the same key. Fails with
/// `InvalidProperty` at the first line that is neither a comment nor a
/// single `key=value` pair, leaving the partial merge in the mapping for
/// the caller to discard.
pub fn parse_props(
    lines: &Vec<String>,
    comments: bool,
    comment_char: char,
    props: &mut Props,
) -> (r: Result<(), Error>)
    requires
        old(props).wf(),
    ensures
        final(props).wf(),
        final(props)@ == props_after(
            lines.deep_view(),
            comments,
            comment_char,
            old(props)@,
        ),
        (r is Ok) == lines_ok(lines.deep_view(), comments, comment_char),
        r is Err ==> r == Err::<(), Error>(Error::InvalidProperty),
{
    let ghost all = lines.deep_view();
    proof {
        assert(all.skip(0) =~= all);
    }
    let n = lines.len();
    let mut i: usize = 0;
    while i < n
        invariant
            i <= n,
            n == all.len(),
            all == lines.deep_view(),
            props.wf(),
            props_after(all, comments, comment_char, old(props)@) == props_after(
                all.skip(i as int),
                comments,
                comment_char,
                props@,
            ),
            forall|j: int| 0 <= j < i ==> line_ok(all[j], comments, comment_char),
        decreases n - i,
    {
        let line = &lines[i];
        proof {
            assert(all[i as int] == lines@[i as int]@);
            assert(all.skip(i as int).len() > 0);
            assert(all.skip(i as int)[0] == all[i as int]);
            assert(all.skip(i as int).drop_first() =~= all.skip(i + 1));
        }
        let len = line.as_str().unicode_len();
        let is_comment = comments && len > 0 && line.as_str().get_char(0) == comment_char;
        if !is_comment {
            match split_line(line.as_str()) {
                Some(kv) => {
                    props.insert(kv.0, kv.1);
                },
                None => {
                    return Err(Error::InvalidProperty);
                },
            }
        }
        i = i + 1;
    }
    proof {
        assert(all.skip(n as int) =~= Seq::<Seq<char>>::empty());
    }
    Ok(())
}

} // verus!

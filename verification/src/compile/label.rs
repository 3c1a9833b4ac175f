//! Short labels for spawned animals, made from their type names.

use vstd::prelude::*;
use vstd::string::*;

use crate::collections::lemma_take_next;

verus! {

/// `String::push` appends one character.
pub assume_specification[ String::push ](text: &mut String, ch: char)
    ensures
        final(text)@ == old(text)@.push(ch),
;

/// A character of a path such as `my::module::Animal` or of a lifetime.
pub open spec fn is_path_char(ch: char) -> bool {
    ||| 'a' <= ch <= 'z'
    ||| 'A' <= ch <= 'Z'
    ||| '0' <= ch <= '9'
    ||| ch == '_'
    ||| ch == ':'
    ||| ch == '\''
}

/// White space as Unicode defines it.
pub open spec fn is_white_space(ch: char) -> bool {
    ||| '\u{9}' <= ch <= '\u{d}'
    ||| ch == ' '
    ||| ch == '\u{85}'
    ||| ch == '\u{a0}'
    ||| ch == '\u{1680}'
    ||| '\u{2000}' <= ch <= '\u{200a}'
    ||| ch == '\u{2028}'
    ||| ch == '\u{2029}'
    ||| ch == '\u{202f}'
    ||| ch == '\u{205f}'
    ||| ch == '\u{3000}'
}

/// What follows the last `::` of a path; the whole path when it has none.
pub open spec fn last_segment(path: Seq<char>) -> Seq<char>
    decreases path.len(),
{
    if path.len() < 2 {
        path
    } else if path[path.len() - 2] == ':' && path.last() == ':' {
        Seq::empty()
    } else {
        last_segment(path.drop_last()).push(path.last())
    }
}

/// `text` with every maximal path cut to its last segment, where `path` is
/// the part of a path that precedes `text`.
pub open spec fn cut_paths(path: Seq<char>, text: Seq<char>) -> Seq<char>
    decreases text.len(),
{
    if text.len() == 0 {
        last_segment(path)
    } else if is_path_char(text[0]) {
        cut_paths(path.push(text[0]), text.drop_first())
    } else {
        last_segment(path).push(text[0]) + cut_paths(Seq::empty(), text.drop_first())
    }
}

/// `text` without white space at either end.
pub open spec fn is_trimmed(text: Seq<char>, trimmed: Seq<char>) -> bool {
    exists|from: int, to: int| #[trigger]
        text.subrange(from, to) == trimmed && 0 <= from <= to <= text.len() && (forall|i: int|
            0 <= i < from ==> is_white_space(#[trigger] text[i])) && (forall|i: int|
            to <= i < text.len() ==> is_white_space(#[trigger] text[i])) && (from < to ==> (
        !is_white_space(text[from]) && !is_white_space(text[to - 1])))
}

fn path_char(ch: char) -> (yes: bool)
    ensures
        yes == is_path_char(ch),
{
    ('a' <= ch && ch <= 'z') || ('A' <= ch && ch <= 'Z') || ('0' <= ch && ch <= '9') || ch == '_'
        || ch == ':' || ch == '\''
}

fn white_space(ch: char) -> (yes: bool)
    ensures
        yes == is_white_space(ch),
{
    ('\u{9}' <= ch && ch <= '\u{d}') || ch == ' ' || ch == '\u{85}' || ch == '\u{a0}' || ch
        == '\u{1680}' || ('\u{2000}' <= ch && ch <= '\u{200a}') || ch == '\u{2028}' || ch
        == '\u{2029}' || ch == '\u{202f}' || ch == '\u{205f}' || ch == '\u{3000}'
}

/// The characters of a text.
fn chars_of(text: &str) -> (chars: Vec<char>)
    ensures
        chars@ == text@,
{
    let mut chars: Vec<char> = Vec::new();
    let len = text.unicode_len();
    let mut i: usize = 0;
    while i < len
        invariant
            i <= len,
            len == text@.len(),
            chars@ == text@.take(i as int),
        decreases len - i,
    {
        chars.push(text.get_char(i));
        proof {
            lemma_take_next(text@, i as int);
        }
        i = i + 1;
    }
    assert(chars@ =~= text@);
    chars
}

/// The last segment starts behind the last `::`.
proof fn lemma_last_segment(path: Seq<char>, from: int)
    requires
        0 <= from <= path.len(),
        from == 0 || (from >= 2 && path[from - 2] == ':' && path[from - 1] == ':'),
        forall|i: int|
            from - 1 <= i < path.len() - 1 && 0 <= i ==> !(#[trigger] path[i] == ':' && path[i + 1]
                == ':'),
    ensures
        last_segment(path) == path.skip(from),
    decreases path.len(),
{
    if path.len() < 2 {
        assert(path.skip(0) =~= path);
    } else if from == path.len() {
        assert(path.skip(from) =~= Seq::empty());
    } else {
        assert(path[path.len() - 2] == path[path.len() - 2]);
        let rest = path.drop_last();
        assert forall|i: int|
            from - 1 <= i < rest.len() - 1 && 0 <= i implies !(#[trigger] rest[i] == ':' && rest[i
            + 1] == ':') by {
            assert(path[i] == rest[i]);
        }
        lemma_last_segment(rest, from);
        assert(path.skip(from) =~= rest.skip(from).push(path.last()));
    }
}

/// Appends the last segment of `token` and empties it.
fn push_shortened_type_token(shortened: &mut Vec<char>, token: &mut Vec<char>)
    ensures
        final(shortened)@ == old(shortened)@ + last_segment(old(token)@),
        final(token)@ == Seq::<char>::empty(),
{
    let mut from: usize = token.len();
    while from > 0 && !(from >= 2 && token[from - 2] == ':' && token[from - 1] == ':')
        invariant
            from <= token.len(),
            token@ == old(token)@,
            forall|i: int|
                from - 1 <= i < token@.len() - 1 && 0 <= i ==> !(#[trigger] token@[i] == ':'
                    && token@[i + 1] == ':'),
        decreases from,
    {
        from = from - 1;
    }
    proof {
        lemma_last_segment(token@, from as int);
    }
    let mut i: usize = from;
    while i < token.len()
        invariant
            from <= i <= token.len(),
            token@ == old(token)@,
            shortened@ == old(shortened)@ + token@.subrange(from as int, i as int),
        decreases token.len() - i,
    {
        shortened.push(token[i]);
        assert(token@.subrange(from as int, i + 1) =~= token@.subrange(from as int, i as int).push(
            token@[i as int],
        ));
        i = i + 1;
    }
    assert(token@.subrange(from as int, i as int) =~= token@.skip(from as int));
    token.clear();
}

/// Shortens every path in a type name to its last segment, keeping generic
/// arguments.
pub fn short_type_label(label: &str) -> (short: String)
    ensures
        is_trimmed(cut_paths(Seq::empty(), label@), short@),
{
    let chars = chars_of(label);
    let mut shortened: Vec<char> = Vec::new();
    let mut token: Vec<char> = Vec::new();
    let mut i: usize = 0;
    assert(chars@.skip(0) =~= chars@);
    while i < chars.len()
        invariant
            i <= chars.len(),
            chars@ == label@,
            cut_paths(Seq::empty(), label@) == shortened@ + cut_paths(
                token@,
                chars@.skip(i as int),
            ),
        decreases chars.len() - i,
    {
        let ch = chars[i];
        assert(chars@.skip(i as int).drop_first() =~= chars@.skip(i + 1));
        if path_char(ch) {
            token.push(ch);
        } else {
            let ghost before = shortened@;
            let ghost path = token@;
            push_shortened_type_token(&mut shortened, &mut token);
            shortened.push(ch);
            assert(before + (last_segment(path).push(ch) + cut_paths(
                Seq::empty(),
                chars@.skip(i + 1),
            )) =~= shortened@ + cut_paths(Seq::empty(), chars@.skip(i + 1)));
        }
        i = i + 1;
    }
    assert(chars@.skip(i as int) =~= Seq::empty());
    push_shortened_type_token(&mut shortened, &mut token);
    trim(&shortened)
}

/// Drops white space at both ends.
fn trim(text: &Vec<char>) -> (trimmed: String)
    ensures
        is_trimmed(text@, trimmed@),
{
    let mut from: usize = 0;
    while from < text.len() && white_space(text[from])
        invariant
            from <= text.len(),
            forall|i: int| 0 <= i < from ==> is_white_space(#[trigger] text@[i]),
        decreases text.len() - from,
    {
        from = from + 1;
    }
    let mut to: usize = text.len();
    while to > from && white_space(text[to - 1])
        invariant
            from <= to <= text.len(),
            forall|i: int| to <= i < text@.len() ==> is_white_space(#[trigger] text@[i]),
        decreases to,
    {
        to = to - 1;
    }
    let mut trimmed = String::new();
    let mut i: usize = from;
    while i < to
        invariant
            from <= i <= to <= text.len(),
            trimmed@ == text@.subrange(from as int, i as int),
        decreases to - i,
    {
        trimmed.push(text[i]);
        assert(text@.subrange(from as int, i + 1) =~= text@.subrange(from as int, i as int).push(
            text@[i as int],
        ));
        i = i + 1;
    }
    trimmed
}

/// `text` without anything between angle brackets, read from inside `depth`
/// open ones.
pub open spec fn outside_brackets(text: Seq<char>, depth: nat) -> Seq<char>
    decreases text.len(),
{
    if text.len() == 0 {
        Seq::empty()
    } else if text[0] == '<' {
        outside_brackets(text.drop_first(), depth + 1)
    } else if text[0] == '>' {
        outside_brackets(
            text.drop_first(),
            if depth > 0 {
                (depth - 1) as nat
            } else {
                0
            },
        )
    } else if depth == 0 {
        seq![text[0]] + outside_brackets(text.drop_first(), 0)
    } else {
        outside_brackets(text.drop_first(), depth)
    }
}

/// Drops generic arguments from a type name.
pub fn strip_type_generics(name: &str) -> (stripped: String)
    ensures
        is_trimmed(outside_brackets(name@, 0), stripped@),
{
    let chars = chars_of(name);
    let mut cleaned: Vec<char> = Vec::new();
    let mut depth: usize = 0;
    let mut i: usize = 0;
    assert(chars@.skip(0) =~= chars@);
    assert(cleaned@ + outside_brackets(name@, 0) =~= outside_brackets(name@, 0));
    while i < chars.len()
        invariant
            depth <= i <= chars.len(),
            chars@ == name@,
            outside_brackets(name@, 0) == cleaned@ + outside_brackets(
                chars@.skip(i as int),
                depth as nat,
            ),
        decreases chars.len() - i,
    {
        let ch = chars[i];
        let ghost before = cleaned@;
        assert(chars@.skip(i as int).drop_first() =~= chars@.skip(i + 1));
        if ch == '<' {
            depth = depth + 1;
        } else if ch == '>' {
            if depth > 0 {
                depth = depth - 1;
            }
        } else if depth == 0 {
            cleaned.push(ch);
            assert(before + (seq![ch] + outside_brackets(chars@.skip(i + 1), 0)) =~= cleaned@
                + outside_brackets(chars@.skip(i + 1), 0));
        }
        i = i + 1;
    }
    assert(chars@.skip(i as int) =~= Seq::empty());
    assert(cleaned@ + Seq::<char>::empty() =~= cleaned@);
    trim(&cleaned)
}

/// The last path segment of a type name, without its generic arguments.
pub fn plain_type_label(name: &str) -> (short: String)
    ensures
        exists|stripped: Seq<char>| #[trigger]
            is_trimmed(outside_brackets(name@, 0), stripped) && short@ == last_segment(stripped),
{
    let stripped = strip_type_generics(name);
    let mut token = chars_of(stripped.as_str());
    let mut segment: Vec<char> = Vec::new();
    push_shortened_type_token(&mut segment, &mut token);
    let mut short = String::new();
    let mut i: usize = 0;
    while i < segment.len()
        invariant
            i <= segment.len(),
            short@ == segment@.take(i as int),
        decreases segment.len() - i,
    {
        short.push(segment[i]);
        proof {
            lemma_take_next(segment@, i as int);
        }
        i = i + 1;
    }
    proof {
        assert(segment@.take(i as int) =~= segment@);
        assert(segment@ =~= last_segment(stripped@));
        assert(is_trimmed(outside_brackets(name@, 0), stripped@));
    }
    short
}

/// A path is cut behind its last pair of colons, and stays whole without one.
pub proof fn law_last_segment_has_no_path(path: Seq<char>)
    ensures
        ({
            let last = last_segment(path);
            let cut = path.len() - last.len();
            &&& 0 <= cut
            &&& last == path.subrange(cut, path.len() as int)
            &&& cut > 0 ==> cut >= 2 && path[cut - 1] == ':' && path[cut - 2] == ':'
            &&& forall|i: int|
                0 <= i < last.len() - 1 ==> !((#[trigger] last[i]) == ':' && last[i + 1] == ':')
        }),
    decreases path.len(),
{
    let last = last_segment(path);
    if path.len() < 2 {
        assert(last =~= path.subrange(0, path.len() as int));
    } else if path[path.len() - 2] == ':' && path.last() == ':' {
        assert(last =~= path.subrange(path.len() as int, path.len() as int));
    } else {
        let rest = path.drop_last();
        let before = last_segment(rest);
        law_last_segment_has_no_path(rest);
        let cut = rest.len() - before.len();
        assert(last =~= path.subrange(cut, path.len() as int));
        assert forall|i: int| 0 <= i < last.len() - 1 implies !((#[trigger] last[i]) == ':' && last[i
            + 1] == ':') by {
            if i + 1 < before.len() {
                assert(before[i] == last[i]);
                assert(before[i + 1] == last[i + 1]);
            } else {
                assert(last[i] == path[path.len() - 2]);
                assert(last[i + 1] == path.last());
            }
        }
    }
}

/// A single path is cut to its last segment.
pub proof fn law_a_path_is_cut_to_its_last_segment(path: Seq<char>)
    requires
        forall|i: int| 0 <= i < path.len() ==> is_path_char(#[trigger] path[i]),
    ensures
        cut_paths(Seq::empty(), path) == last_segment(path),
{
    lemma_cut_path(Seq::empty(), path);
    assert(Seq::<char>::empty() + path =~= path);
}

proof fn lemma_cut_path(path: Seq<char>, text: Seq<char>)
    requires
        forall|i: int| 0 <= i < text.len() ==> is_path_char(#[trigger] text[i]),
    ensures
        cut_paths(path, text) == last_segment(path + text),
    decreases text.len(),
{
    if text.len() == 0 {
        assert(path + text =~= path);
    } else {
        let rest = text.drop_first();
        assert(is_path_char(text[0]));
        assert forall|i: int| 0 <= i < rest.len() implies is_path_char(#[trigger] rest[i]) by {
            assert(rest[i] == text[i + 1]);
        }
        lemma_cut_path(path.push(text[0]), rest);
        assert(path.push(text[0]) + rest =~= path + text);
    }
}

/// What stands between two paths stays, and each is cut by itself.
pub proof fn law_paths_are_cut_by_themselves(left: Seq<char>, between: char, right: Seq<char>)
    requires
        !is_path_char(between),
    ensures
        cut_paths(Seq::empty(), left.push(between) + right) == cut_paths(Seq::empty(), left).push(
            between,
        ) + cut_paths(Seq::empty(), right),
{
    lemma_cut_between(Seq::empty(), left, between, right);
}

proof fn lemma_cut_between(path: Seq<char>, left: Seq<char>, between: char, right: Seq<char>)
    requires
        !is_path_char(between),
    ensures
        cut_paths(path, left.push(between) + right) == cut_paths(path, left).push(between)
            + cut_paths(Seq::empty(), right),
    decreases left.len(),
{
    let text = left.push(between) + right;
    if left.len() == 0 {
        assert(text[0] == between);
        assert(text.drop_first() =~= right);
    } else {
        let rest = left.drop_first();
        assert(text[0] == left[0]);
        assert(text.drop_first() =~= rest.push(between) + right);
        if is_path_char(left[0]) {
            lemma_cut_between(path.push(left[0]), rest, between, right);
        } else {
            lemma_cut_between(Seq::empty(), rest, between, right);
            assert(cut_paths(path, text) =~= cut_paths(path, left).push(between) + cut_paths(
                Seq::empty(),
                right,
            ));
        }
    }
}

/// A text is trimmed in one way.
pub proof fn law_trimming_is_unique(text: Seq<char>, a: Seq<char>, b: Seq<char>)
    requires
        is_trimmed(text, a),
        is_trimmed(text, b),
    ensures
        a == b,
{
    let (i, j) = choose|from: int, to: int| #[trigger]
        text.subrange(from, to) == a && 0 <= from <= to <= text.len() && (forall|i: int|
            0 <= i < from ==> is_white_space(#[trigger] text[i])) && (forall|i: int|
            to <= i < text.len() ==> is_white_space(#[trigger] text[i])) && (from < to ==> (
        !is_white_space(text[from]) && !is_white_space(text[to - 1])));
    let (k, l) = choose|from: int, to: int| #[trigger]
        text.subrange(from, to) == b && 0 <= from <= to <= text.len() && (forall|i: int|
            0 <= i < from ==> is_white_space(#[trigger] text[i])) && (forall|i: int|
            to <= i < text.len() ==> is_white_space(#[trigger] text[i])) && (from < to ==> (
        !is_white_space(text[from]) && !is_white_space(text[to - 1])));
    if i < j {
        assert(!is_white_space(text[i]) && !is_white_space(text[j - 1]));
        if k < l {
            assert(!is_white_space(text[k]) && !is_white_space(text[l - 1]));
            assert(i == k);
            assert(j == l);
        } else {
            assert(i < k || i >= l);
        }
    } else if k < l {
        assert(!is_white_space(text[k]));
        assert(k < i || k >= j);
    } else {
        assert(a =~= b);
    }
}

/// Generic arguments are dropped, and what stands around them stays.
pub proof fn law_generic_arguments_are_dropped(name: Seq<char>, inner: Seq<char>, rest: Seq<char>)
    requires
        forall|i: int| 0 <= i < name.len() ==> (#[trigger] name[i]) != '<' && name[i] != '>',
        forall|i: int| 0 <= i < inner.len() ==> (#[trigger] inner[i]) != '<' && inner[i] != '>',
    ensures
        outside_brackets(name, 0) == name,
        outside_brackets(name.push('<') + inner.push('>') + rest, 0) == name + outside_brackets(
            rest,
            0,
        ),
{
    lemma_outside_plain(name, Seq::empty());
    assert(name + Seq::<char>::empty() =~= name);
    let behind = inner.push('>') + rest;
    let opened = seq!['<'] + behind;
    assert(name.push('<') + inner.push('>') + rest =~= name + opened);
    lemma_outside_plain(name, opened);
    assert(opened[0] == '<');
    assert(opened.drop_first() =~= behind);
    lemma_inside_plain(inner, rest);
    assert(outside_brackets(Seq::empty(), 0) =~= Seq::empty());
}

proof fn lemma_outside_plain(name: Seq<char>, rest: Seq<char>)
    requires
        forall|i: int| 0 <= i < name.len() ==> (#[trigger] name[i]) != '<' && name[i] != '>',
    ensures
        outside_brackets(name + rest, 0) == name + outside_brackets(rest, 0),
    decreases name.len(),
{
    if name.len() == 0 {
        assert(name + rest =~= rest);
        assert(name + outside_brackets(rest, 0) =~= outside_brackets(rest, 0));
    } else {
        let more = name.drop_first();
        assert((name + rest)[0] == name[0]);
        assert((name + rest).drop_first() =~= more + rest);
        assert forall|i: int| 0 <= i < more.len() implies (#[trigger] more[i]) != '<' && more[i]
            != '>' by {
            assert(more[i] == name[i + 1]);
        }
        lemma_outside_plain(more, rest);
        assert(seq![name[0]] + (more + outside_brackets(rest, 0)) =~= name + outside_brackets(
            rest,
            0,
        ));
    }
}

proof fn lemma_inside_plain(inner: Seq<char>, rest: Seq<char>)
    requires
        forall|i: int| 0 <= i < inner.len() ==> (#[trigger] inner[i]) != '<' && inner[i] != '>',
    ensures
        outside_brackets(inner.push('>') + rest, 1) == outside_brackets(rest, 0),
    decreases inner.len(),
{
    let text = inner.push('>') + rest;
    if inner.len() == 0 {
        assert(text[0] == '>');
        assert(text.drop_first() =~= rest);
    } else {
        let more = inner.drop_first();
        assert(text[0] == inner[0]);
        assert(text.drop_first() =~= more.push('>') + rest);
        assert forall|i: int| 0 <= i < more.len() implies (#[trigger] more[i]) != '<' && more[i]
            != '>' by {
            assert(more[i] == inner[i + 1]);
        }
        lemma_inside_plain(more, rest);
    }
}

} // verus!

//! Text helpers over Unicode scalar values: whitespace trimming, tag lists,
//! note lines, case folding and substring search.

use vstd::prelude::*;
use vstd::string::StringExecFns;

verus! {

/// `String::push` appends one character.
pub assume_specification[ String::push ](s: &mut String, ch: char)
    ensures
        final(s)@ == old(s)@.push(ch),
;

/// `String::pop` removes and returns the last character, if any.
pub assume_specification[ String::pop ](s: &mut String) -> (r: Option<char>)
    ensures
        old(s)@.len() == 0 ==> r is None && final(s)@ == old(s)@,
        old(s)@.len() > 0 ==> r == Some(old(s)@.last()) && final(s)@ == old(s)@.drop_last(),
;

/// The characters of `s`, in order.
pub fn chars_of(s: &str) -> (v: Vec<char>)
    ensures
        v@ == s@,
{
    let mut v: Vec<char> = Vec::new();
    for c in it: s.chars()
        invariant
            it.seq() == s@,
            v@ == it.seq().take(it.index() as int),
    {
        v.push(c);
    }
    proof {
        assert(v@ =~= s@);
    }
    v
}

/// A string holding exactly the characters of `cs[from..to]`.
pub fn string_of(cs: &Vec<char>, from: usize, to: usize) -> (s: String)
    requires
        from <= to <= cs.len(),
    ensures
        s@ == cs@.subrange(from as int, to as int),
{
    let mut s = String::new();
    let mut i = from;
    while i < to
        invariant
            from <= i <= to <= cs.len(),
            s@ == cs@.subrange(from as int, i as int),
        decreases to - i,
    {
        s.push(cs[i]);
        i = i + 1;
        proof {
            assert(s@ =~= cs@.subrange(from as int, i as int));
        }
    }
    s
}

/// The Unicode `White_Space` property, the definition `char::is_whitespace` uses.
pub open spec fn spec_is_whitespace(c: char) -> bool {
    let u = c as u32;
    ||| 0x9 <= u <= 0xD
    ||| u == 0x20
    ||| u == 0x85
    ||| u == 0xA0
    ||| u == 0x1680
    ||| 0x2000 <= u <= 0x200A
    ||| u == 0x2028
    ||| u == 0x2029
    ||| u == 0x202F
    ||| u == 0x205F
    ||| u == 0x3000
}

pub fn is_whitespace(c: char) -> (r: bool)
    ensures
        r == spec_is_whitespace(c),
{
    let u = c as u32;
    (0x9 <= u && u <= 0xD) || u == 0x20 || u == 0x85 || u == 0xA0 || u == 0x1680 || (0x2000 <= u
        && u <= 0x200A) || u == 0x2028 || u == 0x2029 || u == 0x202F || u == 0x205F || u == 0x3000
}

/// Number of leading whitespace characters of `s`.
pub open spec fn leading_ws(s: Seq<char>) -> nat
    decreases s.len(),
{
    if s.len() > 0 && spec_is_whitespace(s[0]) {
        1 + leading_ws(s.drop_first())
    } else {
        0
    }
}

/// Number of trailing whitespace characters of `s`.
pub open spec fn trailing_ws(s: Seq<char>) -> nat
    decreases s.len(),
{
    if s.len() > 0 && spec_is_whitespace(s.last()) {
        1 + trailing_ws(s.drop_last())
    } else {
        0
    }
}

/// `s` with leading and trailing whitespace removed, as `str::trim` does.
pub open spec fn spec_trim(s: Seq<char>) -> Seq<char> {
    let t = s.skip(leading_ws(s) as int);
    t.take(t.len() - trailing_ws(t))
}

pub proof fn lemma_leading_ws(s: Seq<char>)
    ensures
        leading_ws(s) <= s.len(),
        forall|i: int| 0 <= i < leading_ws(s) ==> spec_is_whitespace(#[trigger] s[i]),
        leading_ws(s) < s.len() ==> !spec_is_whitespace(s[leading_ws(s) as int]),
    decreases s.len(),
{
    if s.len() > 0 && spec_is_whitespace(s[0]) {
        lemma_leading_ws(s.drop_first());
        assert forall|i: int| 0 <= i < leading_ws(s) implies spec_is_whitespace(#[trigger] s[i]) by {
            if i > 0 {
                assert(s[i] == s.drop_first()[i - 1]);
            }
        }
    }
}

pub proof fn lemma_trailing_ws(s: Seq<char>)
    ensures
        trailing_ws(s) <= s.len(),
        forall|i: int|
            s.len() - trailing_ws(s) <= i < s.len() ==> spec_is_whitespace(#[trigger] s[i]),
        trailing_ws(s) < s.len() ==> !spec_is_whitespace(s[s.len() - trailing_ws(s) - 1]),
    decreases s.len(),
{
    if s.len() > 0 && spec_is_whitespace(s.last()) {
        lemma_trailing_ws(s.drop_last());
        assert forall|i: int|
            s.len() - trailing_ws(s) <= i < s.len() implies spec_is_whitespace(#[trigger] s[i]) by {
            if i < s.len() - 1 {
                assert(s[i] == s.drop_last()[i]);
            }
        }
    }
}

/// The position where leading whitespace of `cs[from..to]` ends.
fn skip_leading_ws(cs: &Vec<char>, from: usize, to: usize) -> (k: usize)
    requires
        from <= to <= cs.len(),
    ensures
        k == from + leading_ws(cs@.subrange(from as int, to as int)),
{
    let mut k = from;
    while k < to && is_whitespace(cs[k])
        invariant
            from <= k <= to <= cs.len(),
            leading_ws(cs@.subrange(from as int, to as int)) == (k - from) + leading_ws(
                cs@.subrange(k as int, to as int),
            ),
        decreases to - k,
    {
        proof {
            let s = cs@.subrange(k as int, to as int);
            assert(s.drop_first() =~= cs@.subrange(k + 1, to as int));
        }
        k = k + 1;
    }
    k
}

/// The position where trailing whitespace of `cs[from..to]` starts.
fn skip_trailing_ws(cs: &Vec<char>, from: usize, to: usize) -> (k: usize)
    requires
        from <= to <= cs.len(),
    ensures
        k + trailing_ws(cs@.subrange(from as int, to as int)) == to,
{
    let mut k = to;
    while k > from && is_whitespace(cs[k - 1])
        invariant
            from <= k <= to <= cs.len(),
            trailing_ws(cs@.subrange(from as int, to as int)) == (to - k) + trailing_ws(
                cs@.subrange(from as int, k as int),
            ),
        decreases k - from,
    {
        proof {
            let s = cs@.subrange(from as int, k as int);
            assert(s.drop_last() =~= cs@.subrange(from as int, k - 1));
        }
        k = k - 1;
    }
    k
}

/// `cs[from..to]` with surrounding whitespace removed.
pub fn trim_range(cs: &Vec<char>, from: usize, to: usize) -> (s: String)
    requires
        from <= to <= cs.len(),
    ensures
        s@ == spec_trim(cs@.subrange(from as int, to as int)),
{
    let ghost w = cs@.subrange(from as int, to as int);
    let a = skip_leading_ws(cs, from, to);
    proof {
        lemma_leading_ws(w);
    }
    let b = skip_trailing_ws(cs, a, to);
    proof {
        let t = w.skip(leading_ws(w) as int);
        assert(t =~= cs@.subrange(a as int, to as int));
        lemma_trailing_ws(t);
        assert(t.take(t.len() - trailing_ws(t)) =~= cs@.subrange(a as int, b as int));
    }
    string_of(cs, a, b)
}

/// `str::trim`: the text without leading and trailing whitespace.
pub fn trim(s: &str) -> (r: String)
    ensures
        r@ == spec_trim(s@),
{
    let cs = chars_of(s);
    proof {
        assert(cs@.subrange(0, cs@.len() as int) =~= s@);
    }
    trim_range(&cs, 0, cs.len())
}


/// Whitespace at the front of a text does not change its trimmed form.
pub proof fn lemma_trim_skips_leading_ws(w: Seq<char>, y: Seq<char>)
    requires
        forall|i: int| 0 <= i < w.len() ==> spec_is_whitespace(#[trigger] w[i]),
    ensures
        spec_trim(w + y) == spec_trim(y),
    decreases w.len(),
{
    if w.len() > 0 {
        assert((w + y)[0] == w[0]);
        assert((w + y).drop_first() =~= w.drop_first() + y);
        lemma_trim_skips_leading_ws(w.drop_first(), y);
        assert(leading_ws(w + y) == 1 + leading_ws(w.drop_first() + y));
        lemma_leading_ws(w.drop_first() + y);
        assert((w + y).skip(leading_ws(w + y) as int) =~= (w.drop_first() + y).skip(
            leading_ws(w.drop_first() + y) as int,
        ));
    }
}

// ----------------------------------------------------------------------------
// Fields separated by one character

/// Number of characters before the first `sep` in `s` (all of `s` if none).
pub open spec fn field_len(s: Seq<char>, sep: char) -> nat
    decreases s.len(),
{
    if s.len() == 0 || s[0] == sep {
        0
    } else {
        1 + field_len(s.drop_first(), sep)
    }
}

pub proof fn lemma_field_len(s: Seq<char>, sep: char)
    ensures
        field_len(s, sep) <= s.len(),
        forall|i: int| 0 <= i < field_len(s, sep) ==> #[trigger] s[i] != sep,
        field_len(s, sep) < s.len() ==> s[field_len(s, sep) as int] == sep,
    decreases s.len(),
{
    if s.len() > 0 && s[0] != sep {
        lemma_field_len(s.drop_first(), sep);
        assert forall|i: int| 0 <= i < field_len(s, sep) implies #[trigger] s[i] != sep by {
            if i > 0 {
                assert(s[i] == s.drop_first()[i - 1]);
            }
        }
    }
}

/// The field length is determined by where the first `sep` stands.
pub proof fn lemma_field_len_at(s: Seq<char>, sep: char, n: int)
    requires
        0 <= n <= s.len(),
        forall|i: int| 0 <= i < n ==> #[trigger] s[i] != sep,
        n < s.len() ==> s[n] == sep,
    ensures
        field_len(s, sep) == n,
    decreases s.len(),
{
    if n > 0 {
        assert forall|i: int| 0 <= i < n - 1 implies #[trigger] s.drop_first()[i] != sep by {
            assert(s.drop_first()[i] == s[i + 1]);
        }
        lemma_field_len_at(s.drop_first(), sep, n - 1);
    }
}

/// A one-element list holding `t`, or the empty list when `t` is empty.
pub open spec fn keep_nonempty(t: Seq<char>) -> Seq<Seq<char>> {
    if t.len() > 0 {
        seq![t]
    } else {
        Seq::empty()
    }
}

/// The tags written in `s`: `s` split at each `,`, every piece trimmed,
/// and empty pieces dropped.
pub open spec fn spec_parse_tags(s: Seq<char>) -> Seq<Seq<char>>
    decreases s.len(),
{
    let n = field_len(s, ',');
    let head = keep_nonempty(spec_trim(s.take(n as int)));
    if n < s.len() {
        head + spec_parse_tags(s.skip(n + 1 as int))
    } else {
        head
    }
}

/// The texts of a list of strings.
pub open spec fn texts(v: Seq<String>) -> Seq<Seq<char>> {
    v.map_values(|t: String| t@)
}

/// Appends `piece` to `tags` when it is not empty.
fn push_nonempty(tags: &mut Vec<String>, piece: String)
    ensures
        texts(final(tags)@) == texts(old(tags)@) + keep_nonempty(piece@),
{
    let ghost old_tags = old(tags)@;
    if !piece.as_str().is_empty() {
        tags.push(piece);
        proof {
            assert(texts(tags@) =~= texts(old_tags) + keep_nonempty(piece@));
        }
    } else {
        proof {
            assert(texts(tags@) =~= texts(old_tags) + keep_nonempty(piece@));
        }
    }
}

/// Splits a comma separated tag list, trims each tag and drops empty ones.
pub fn parse_tags(s: &str) -> (tags: Vec<String>)
    ensures
        texts(tags@) == spec_parse_tags(s@),
{
    let cs = chars_of(s);
    let len = cs.len();
    let mut tags: Vec<String> = Vec::new();
    let mut start: usize = 0;
    let mut i: usize = 0;
    proof {
        assert(cs@.skip(0) =~= cs@);
        assert(texts(tags@) =~= Seq::empty());
        assert(Seq::<Seq<char>>::empty() + spec_parse_tags(s@) =~= spec_parse_tags(s@));
    }
    while i < len
        invariant
            len == cs.len(),
            cs@ == s@,
            start <= i <= len,
            forall|k: int| start <= k < i ==> #[trigger] cs@[k] != ',',
            texts(tags@) + spec_parse_tags(cs@.skip(start as int)) == spec_parse_tags(s@),
        decreases len - i,
    {
        if cs[i] == ',' {
            let piece = trim_range(&cs, start, i);
            let ghost old_tags = tags@;
            proof {
                let rest = cs@.skip(start as int);
                assert forall|k: int| 0 <= k < i - start implies #[trigger] rest[k] != ',' by {
                    assert(rest[k] == cs@[start + k]);
                }
                lemma_field_len_at(rest, ',', i - start);
                assert(rest.take(i - start) =~= cs@.subrange(start as int, i as int));
                assert(rest.skip(i - start + 1) =~= cs@.skip(i + 1));
            }
            push_nonempty(&mut tags, piece);
            proof {
                let rest = cs@.skip(start as int);
                assert(spec_parse_tags(rest) == keep_nonempty(piece@) + spec_parse_tags(
                    cs@.skip(i + 1),
                ));
                assert(texts(tags@) + spec_parse_tags(cs@.skip(i + 1)) =~= texts(old_tags) + (
                keep_nonempty(piece@) + spec_parse_tags(cs@.skip(i + 1))));
            }
            start = i + 1;
        }
        i = i + 1;
    }
    let piece = trim_range(&cs, start, len);
    let ghost old_tags = tags@;
    proof {
        let rest = cs@.skip(start as int);
        assert forall|k: int| 0 <= k < len - start implies #[trigger] rest[k] != ',' by {
            assert(rest[k] == cs@[start + k]);
        }
        lemma_field_len_at(rest, ',', len - start);
        assert(rest.take(len - start) =~= cs@.subrange(start as int, len as int));
    }
    push_nonempty(&mut tags, piece);
    tags
}


/// Whitespace in front of a tag list changes nothing in it.
pub proof fn lemma_parse_tags_skips_leading_ws(w: Seq<char>, x: Seq<char>)
    requires
        forall|i: int| 0 <= i < w.len() ==> spec_is_whitespace(#[trigger] w[i]),
    ensures
        spec_parse_tags(w + x) == spec_parse_tags(x),
{
    let s = w + x;
    let n = field_len(x, ',');
    lemma_field_len(x, ',');
    assert forall|i: int| 0 <= i < w.len() + n implies #[trigger] s[i] != ',' by {
        if i < w.len() {
            assert(spec_is_whitespace(w[i]));
        } else {
            assert(s[i] == x[i - w.len()]);
        }
    }
    if n < x.len() {
        assert(s[w.len() + n as int] == x[n as int]);
    }
    lemma_field_len_at(s, ',', w.len() + n as int);
    assert(s.take(w.len() + n as int) =~= w + x.take(n as int));
    lemma_trim_skips_leading_ws(w, x.take(n as int));
    if n < x.len() {
        assert(s.skip(w.len() + n + 1 as int) =~= x.skip(n + 1 as int));
    }
}

// ----------------------------------------------------------------------------
// Joining

/// `parts` with `sep` between each two neighbours.
pub open spec fn spec_join(parts: Seq<Seq<char>>, sep: Seq<char>) -> Seq<char>
    decreases parts.len(),
{
    if parts.len() == 0 {
        Seq::empty()
    } else if parts.len() == 1 {
        parts[0]
    } else {
        parts[0] + sep + spec_join(parts.drop_first(), sep)
    }
}

pub proof fn lemma_join_push(parts: Seq<Seq<char>>, sep: Seq<char>, x: Seq<char>)
    ensures
        spec_join(parts.push(x), sep) == if parts.len() == 0 {
            x
        } else {
            spec_join(parts, sep) + sep + x
        },
    decreases parts.len(),
{
    if parts.len() >= 1 {
        assert(parts.push(x).drop_first() =~= parts.drop_first().push(x));
        lemma_join_push(parts.drop_first(), sep, x);
        if parts.len() == 1 {
            assert(parts.drop_first().push(x) =~= seq![x]);
        } else {
            assert(parts[0] + sep + (spec_join(parts.drop_first(), sep) + sep + x) =~= parts[0]
                + sep + spec_join(parts.drop_first(), sep) + sep + x);
        }
    }
}

/// The strings of `parts` joined with `sep` between each two neighbours.
pub fn join(parts: &Vec<String>, sep: &str) -> (r: String)
    ensures
        r@ == spec_join(texts(parts@), sep@),
{
    let mut r = String::new();
    let mut i: usize = 0;
    while i < parts.len()
        invariant
            i <= parts.len(),
            r@ == spec_join(texts(parts@.take(i as int)), sep@),
        decreases parts.len() - i,
    {
        proof {
            assert(texts(parts@.take(i + 1 as int)) =~= texts(parts@.take(i as int)).push(
                parts@[i as int]@,
            ));
            lemma_join_push(texts(parts@.take(i as int)), sep@, parts@[i as int]@);
        }
        if i > 0 {
            r.append(sep);
        }
        r.append(parts[i].as_str());
        i = i + 1;
    }
    proof {
        assert(parts@.take(parts.len() as int) =~= parts@);
    }
    r
}

/// Tags that have no surrounding whitespace, are not empty and hold no
/// comma come back unchanged when written out with `,` followed by any
/// whitespace between them and read in again.
pub proof fn lemma_tags_roundtrip(tags: Seq<Seq<char>>, w: Seq<char>)
    requires
        forall|i: int|
            0 <= i < tags.len() ==> #[trigger] tags[i].len() > 0 && spec_trim(tags[i]) == tags[i]
                && !tags[i].contains(','),
        forall|i: int| 0 <= i < w.len() ==> spec_is_whitespace(#[trigger] w[i]),
    ensures
        spec_parse_tags(spec_join(tags, seq![','] + w)) == tags,
    decreases tags.len(),
{
    let sep = seq![','] + w;
    if tags.len() == 0 {
        assert(spec_trim(Seq::<char>::empty()) =~= Seq::<char>::empty());
        assert(spec_parse_tags(Seq::<char>::empty()) =~= tags);
    } else {
        let t = tags[0];
        assert(tags[0].len() > 0 && spec_trim(tags[0]) == tags[0] && !tags[0].contains(','));
        assert forall|i: int| 0 <= i < t.len() implies #[trigger] t[i] != ',' by {
            if t[i] == ',' {
                assert(t.contains(','));
            }
        }
        if tags.len() == 1 {
            lemma_field_len_at(t, ',', t.len() as int);
            assert(t.take(t.len() as int) =~= t);
            assert(spec_parse_tags(t) =~= tags);
        } else {
            let rest = tags.drop_first();
            let j = spec_join(rest, sep);
            let s = t + sep + j;
            assert forall|i: int| 0 <= i < t.len() implies #[trigger] s[i] != ',' by {
                assert(s[i] == t[i]);
            }
            assert(s[t.len() as int] == ',');
            lemma_field_len_at(s, ',', t.len() as int);
            assert(s.take(t.len() as int) =~= t);
            assert(s.skip(t.len() + 1 as int) =~= w + j);
            lemma_parse_tags_skips_leading_ws(w, j);
            assert forall|i: int| 0 <= i < rest.len() implies #[trigger] rest[i].len() > 0
                && spec_trim(rest[i]) == rest[i] && !rest[i].contains(',') by {
                assert(rest[i] == tags[i + 1]);
            }
            lemma_tags_roundtrip(rest, w);
            assert(spec_parse_tags(s) =~= seq![t] + rest);
            assert(seq![t] + rest =~= tags);
        }
    }
}

/// A trimmed text is its own trimmed form.
pub proof fn lemma_trim_idempotent(x: Seq<char>)
    ensures
        spec_trim(spec_trim(x)) == spec_trim(x),
{
    let u = x.skip(leading_ws(x) as int);
    let t = spec_trim(x);
    lemma_leading_ws(x);
    lemma_trailing_ws(u);
    if t.len() > 0 {
        assert(t[0] == u[0]);
        assert(u[0] == x[leading_ws(x) as int]);
        assert(leading_ws(t) == 0);
        assert(t.last() == u[u.len() - trailing_ws(u) - 1]);
        assert(trailing_ws(t.skip(0)) == 0) by {
            assert(t.skip(0) =~= t);
        }
        assert(t.skip(0).take(t.len() as int) =~= t);
    } else {
        assert(t.skip(0).take(0) =~= t);
    }
}

/// What a trim keeps is a piece of its input.
pub proof fn lemma_trim_within(x: Seq<char>, c: char)
    requires
        !x.contains(c),
    ensures
        !spec_trim(x).contains(c),
{
    lemma_leading_ws(x);
    let u = x.skip(leading_ws(x) as int);
    lemma_trailing_ws(u);
    let t = spec_trim(x);
    if t.contains(c) {
        let k = choose|k: int| 0 <= k < t.len() && t[k] == c;
        assert(t[k] == x[leading_ws(x) + k]);
        assert(x.contains(c));
    }
}

/// Every tag read from a text is non-empty, has no surrounding whitespace
/// and holds no comma.
pub proof fn lemma_parsed_tags_well_formed(s: Seq<char>)
    ensures
        forall|i: int|
            0 <= i < spec_parse_tags(s).len() ==> #[trigger] spec_parse_tags(s)[i].len() > 0
                && spec_trim(spec_parse_tags(s)[i]) == spec_parse_tags(s)[i]
                && !spec_parse_tags(s)[i].contains(','),
    decreases s.len(),
{
    let n = field_len(s, ',');
    lemma_field_len(s, ',');
    let piece = s.take(n as int);
    let t = spec_trim(piece);
    assert(!piece.contains(',')) by {
        if piece.contains(',') {
            let k = choose|k: int| 0 <= k < piece.len() && piece[k] == ',';
            assert(s[k] == ',');
        }
    }
    lemma_trim_within(piece, ',');
    lemma_trim_idempotent(piece);
    let head = keep_nonempty(t);
    if n < s.len() {
        lemma_parsed_tags_well_formed(s.skip(n + 1 as int));
        let rest = spec_parse_tags(s.skip(n + 1 as int));
        assert forall|i: int|
            0 <= i < spec_parse_tags(s).len() implies #[trigger] spec_parse_tags(s)[i].len() > 0
            && spec_trim(spec_parse_tags(s)[i]) == spec_parse_tags(s)[i]
            && !spec_parse_tags(s)[i].contains(',') by {
            if i < head.len() {
                assert(spec_parse_tags(s)[i] == t);
            } else {
                assert(spec_parse_tags(s)[i] == rest[i - head.len()]);
            }
        }
    }
}

/// Tags as a task gets them from the tag prompt are read back unchanged
/// from their stored form (joined by `,`) and from the prompt's form
/// (joined by `, `).
pub proof fn law_tags_reload(s: Seq<char>)
    ensures
        spec_parse_tags(spec_join(spec_parse_tags(s), seq![','])) == spec_parse_tags(s),
        spec_parse_tags(spec_join(spec_parse_tags(s), seq![',', ' '])) == spec_parse_tags(s),
{
    lemma_parsed_tags_well_formed(s);
    let tags = spec_parse_tags(s);
    assert(seq![','] + Seq::<char>::empty() =~= seq![',']);
    lemma_tags_roundtrip(tags, Seq::empty());
    assert(spec_is_whitespace(' '));
    assert(seq![','] + seq![' '] =~= seq![',', ' ']);
    lemma_tags_roundtrip(tags, seq![' ']);
}

// ----------------------------------------------------------------------------
// Lines

/// `t` without one trailing carriage return.
pub open spec fn strip_cr(t: Seq<char>) -> Seq<char> {
    if t.len() > 0 && t.last() == '\r' {
        t.drop_last()
    } else {
        t
    }
}

/// The lines of `s` as `str::lines` gives them: split after each `\n`,
/// a `\r` before that `\n` dropped, and no empty line after a final `\n`.
pub open spec fn spec_lines(s: Seq<char>) -> Seq<Seq<char>>
    decreases s.len(),
{
    if s.len() == 0 {
        Seq::empty()
    } else {
        let n = field_len(s, '\n');
        if n < s.len() {
            seq![strip_cr(s.take(n as int))] + spec_lines(s.skip(n + 1 as int))
        } else {
            seq![s]
        }
    }
}

/// The lines a note editor opens with: one empty line for an empty note,
/// the note's lines otherwise.
pub open spec fn spec_note_lines(notes: Seq<char>) -> Seq<Seq<char>> {
    if notes.len() == 0 {
        seq![Seq::<char>::empty()]
    } else {
        spec_lines(notes)
    }
}

/// `str::lines`, collected.
pub fn lines(s: &str) -> (r: Vec<String>)
    ensures
        texts(r@) == spec_lines(s@),
{
    let cs = chars_of(s);
    let len = cs.len();
    let mut r: Vec<String> = Vec::new();
    let mut start: usize = 0;
    let mut i: usize = 0;
    proof {
        assert(cs@.skip(0) =~= cs@);
        assert(Seq::<Seq<char>>::empty() + spec_lines(s@) =~= spec_lines(s@));
    }
    while i < len
        invariant
            len == cs.len(),
            cs@ == s@,
            start <= i <= len,
            forall|k: int| start <= k < i ==> #[trigger] cs@[k] != '\n',
            texts(r@) + spec_lines(cs@.skip(start as int)) == spec_lines(s@),
        decreases len - i,
    {
        if cs[i] == '\n' {
            let end = if i > start && cs[i - 1] == '\r' {
                i - 1
            } else {
                i
            };
            let line = string_of(&cs, start, end);
            let ghost old_r = r@;
            proof {
                let rest = cs@.skip(start as int);
                assert forall|k: int| 0 <= k < i - start implies #[trigger] rest[k] != '\n' by {
                    assert(rest[k] == cs@[start + k]);
                }
                lemma_field_len_at(rest, '\n', i - start);
                assert(strip_cr(rest.take(i - start)) =~= cs@.subrange(start as int, end as int));
                assert(rest.skip(i - start + 1) =~= cs@.skip(i + 1));
            }
            r.push(line);
            proof {
                assert(texts(r@) + spec_lines(cs@.skip(i + 1)) =~= texts(old_r) + (seq![line@]
                    + spec_lines(cs@.skip(i + 1))));
            }
            start = i + 1;
        }
        i = i + 1;
    }
    if start < len {
        let line = string_of(&cs, start, len);
        let ghost old_r = r@;
        proof {
            let rest = cs@.skip(start as int);
            assert forall|k: int| 0 <= k < len - start implies #[trigger] rest[k] != '\n' by {
                assert(rest[k] == cs@[start + k]);
            }
            lemma_field_len_at(rest, '\n', len - start);
            assert(rest =~= cs@.subrange(start as int, len as int));
        }
        r.push(line);
        proof {
            assert(texts(r@) =~= texts(old_r) + spec_lines(cs@.skip(start as int)));
        }
    } else {
        proof {
            assert(texts(r@) =~= texts(r@) + spec_lines(cs@.skip(start as int)));
        }
    }
    r
}

/// The lines the note editor opens with for `notes`.
pub fn note_lines(notes: &str) -> (r: Vec<String>)
    ensures
        texts(r@) == spec_note_lines(notes@),
{
    if notes.is_empty() {
        let mut r: Vec<String> = Vec::new();
        r.push(String::new());
        proof {
            assert(texts(r@) =~= spec_note_lines(notes@));
        }
        r
    } else {
        lines(notes)
    }
}

/// A note with no carriage return and no final line break comes back
/// unchanged when it is split into the editor's lines and joined again.
pub proof fn lemma_note_lines_roundtrip(notes: Seq<char>)
    requires
        !notes.contains('\r'),
        notes.len() > 0 ==> notes.last() != '\n',
    ensures
        spec_join(spec_note_lines(notes), seq!['\n']) == notes,
    decreases notes.len(),
{
    if notes.len() > 0 {
        let n = field_len(notes, '\n');
        lemma_field_len(notes, '\n');
        if n < notes.len() {
            let a = notes.take(n as int);
            let rest = notes.skip(n + 1 as int);
            assert(n < notes.len() - 1);
            if a.len() > 0 && a.last() == '\r' {
                assert(notes[n - 1] == '\r');
            }
            assert(strip_cr(a) == a);
            assert forall|k: int| 0 <= k < rest.len() implies rest[k] != '\r' by {
                assert(rest[k] == notes[n + 1 + k]);
            }
            assert(!rest.contains('\r'));
            assert(rest.last() == notes.last());
            lemma_note_lines_roundtrip(rest);
            assert(spec_lines(rest).len() > 0);
            assert((seq![a] + spec_lines(rest)).drop_first() =~= spec_lines(rest));
            assert(a + seq!['\n'] + rest =~= notes);
        }
    }
}

// ----------------------------------------------------------------------------
// Case folding and search

/// What `str::to_lowercase` gives for a text: its Unicode lowercase
/// mapping, which takes Unicode's tables (and, for a final sigma, the
/// characters around it) to state.
pub uninterp spec fn lowercase(s: Seq<char>) -> Seq<char>;

/// `str::to_lowercase`.
#[verifier::external_body]
pub(crate) fn to_lowercase(s: &str) -> (r: String)
    ensures
        r@ == lowercase(s@),
{
    s.to_lowercase()
}

/// `needle` occurs in `hay` as a contiguous run of characters.
pub open spec fn spec_contains(hay: Seq<char>, needle: Seq<char>) -> bool {
    exists|i: int|
        0 <= i && i + needle.len() <= hay.len() && #[trigger] hay.subrange(i, i + needle.len())
            == needle
}

/// Whether `needle` stands in `hay` at position `at`.
fn occurs_at(hay: &Vec<char>, needle: &Vec<char>, at: usize) -> (r: bool)
    requires
        at + needle.len() <= hay.len(),
    ensures
        r == (hay@.subrange(at as int, at + needle.len()) == needle@),
{
    let mut k: usize = 0;
    while k < needle.len()
        invariant
            k <= needle.len(),
            at + needle.len() <= hay.len(),
            forall|j: int| 0 <= j < k ==> hay@[at + j] == needle@[j],
        decreases needle.len() - k,
    {
        if hay[at + k] != needle[k] {
            proof {
                assert(hay@.subrange(at as int, at + needle.len())[k as int] != needle@[k as int]);
            }
            return false;
        }
        k = k + 1;
    }
    proof {
        assert(hay@.subrange(at as int, at + needle.len()) =~= needle@);
    }
    true
}

/// `str::contains` for a text pattern.
pub fn contains(hay: &str, needle: &str) -> (r: bool)
    ensures
        r == spec_contains(hay@, needle@),
{
    let h = chars_of(hay);
    let n = chars_of(needle);
    if n.len() > h.len() {
        return false;
    }
    let last = h.len() - n.len();
    let mut at: usize = 0;
    loop
        invariant
            at <= last,
            last + n.len() == h.len(),
            h@ == hay@,
            n@ == needle@,
            forall|i: int| 0 <= i < at ==> #[trigger] h@.subrange(i, i + n@.len()) != n@,
        decreases last - at,
    {
        if occurs_at(&h, &n, at) {
            return true;
        }
        if at == last {
            return false;
        }
        at = at + 1;
    }
}

} // verus!

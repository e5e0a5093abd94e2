//! Text helpers: numerals, prefixes, splitting, path joining and ordering.
//!
//! Strings are modelled as sequences of characters.

use vstd::prelude::*;

verus! {

/// `String::push` appends one character.
pub assume_specification[ std::string::String::push ](s: &mut std::string::String, c: char)
    ensures
        final(s)@ == old(s)@.push(c),
;

/// `String::pop` removes the last character and returns it, or returns `None` on an
/// empty string and leaves it empty.
pub assume_specification[ std::string::String::pop ](
    s: &mut std::string::String,
) -> (r: Option<char>)
    ensures
        match r {
            Some(c) => old(s)@.len() > 0 && c == old(s)@.last() && final(s)@
                == old(s)@.drop_last(),
            None => old(s)@.len() == 0 && final(s)@ == old(s)@,
        },
;

/// The character of one decimal digit.
pub open spec fn digit_char(d: nat) -> char {
    (48 + d) as char
}

/// The decimal numeral of `n`, without leading zeros.
pub open spec fn decimal(n: nat) -> Seq<char>
    decreases n,
{
    if n < 10 {
        seq![digit_char(n)]
    } else {
        decimal(n / 10).push(digit_char(n % 10))
    }
}

/// The decimal numeral of an integer, with a minus sign when it is negative.
pub open spec fn decimal_int(n: int) -> Seq<char> {
    if n < 0 {
        seq!['-'] + decimal((-n) as nat)
    } else {
        decimal(n as nat)
    }
}

/// A numeral holds digits alone, none of them a leading zero, and read from the left, each
/// digit for one more and ten times what stands before it, they give the number.
pub proof fn law_numeral_denotes_its_number(n: nat)
    ensures
        decimal(n).len() > 0,
        forall|i: int| 0 <= i < decimal(n).len() ==> '0' <= (#[trigger] decimal(n)[i]) <= '9',
        decimal(n)[0] == '0' ==> n == 0 && decimal(n).len() == 1,
        decimal(n).fold_left(0int, |v: int, c: char| 10 * v + (c as int - 48)) == n,
    decreases n,
{
    let value = |v: int, c: char| 10 * v + (c as int - 48);
    let d = decimal(n);
    if n < 10 {
        assert(d.drop_last() =~= Seq::<char>::empty());
        assert(d.drop_last().fold_left(0int, value) == 0);
        assert(d.fold_left(0int, value) == value(0, d.last()));
    } else {
        law_numeral_denotes_its_number(n / 10);
        assert(d.drop_last() =~= decimal(n / 10));
        assert(d.last() == digit_char(n % 10));
        assert(d.fold_left(0int, value) == value(d.drop_last().fold_left(0int, value), d.last()));
        assert(d[0] == decimal(n / 10)[0]);
        assert forall|i: int| 0 <= i < d.len() implies '0' <= (#[trigger] d[i]) <= '9' by {
            if i < d.len() - 1 {
                assert(d[i] == decimal(n / 10)[i]);
            }
        }
    }
}

/// A negative number is written as a minus sign and the numeral of its amount, any other as
/// its numeral alone.
pub proof fn law_minus_sign_comes_first(n: int)
    ensures
        n < 0 ==> decimal_int(n)[0] == '-' && decimal_int(n).skip(1) == decimal((-n) as nat),
        n >= 0 ==> decimal_int(n) == decimal(n as nat),
{
    if n < 0 {
        assert(decimal_int(n).skip(1) =~= decimal((-n) as nat));
    }
}

fn digit(d: u64) -> (c: char)
    requires
        d < 10,
    ensures
        c == digit_char(d as nat),
{
    let b: u8 = 48u8 + d as u8;
    b as char
}

/// Writes `n` as a decimal numeral.
pub fn decimal_u64(n: u64) -> (s: String)
    ensures
        s@ == decimal(n as nat),
    decreases n,
{
    if n < 10 {
        let mut s = String::new();
        s.push(digit(n));
        assert(s@ =~= seq![digit_char(n as nat)]);
        s
    } else {
        let mut s = decimal_u64(n / 10);
        s.push(digit(n % 10));
        s
    }
}

/// Writes `n` as a decimal numeral.
pub fn decimal_i32(n: i32) -> (s: String)
    ensures
        s@ == decimal_int(n as int),
{
    if n < 0 {
        let magnitude: u64 = (-(n as i64)) as u64;
        let mut s = String::new();
        s.push('-');
        s.append(decimal_u64(magnitude).as_str());
        assert(s@ =~= seq!['-'] + decimal(magnitude as nat));
        s
    } else {
        decimal_u64(n as u64)
    }
}

/// Writes `n` as a decimal numeral.
pub fn decimal_i64(n: i64) -> (s: String)
    ensures
        s@ == decimal_int(n as int),
{
    if n < 0 {
        let magnitude: u64 = (-(n as i128)) as u64;
        let mut s = String::new();
        s.push('-');
        s.append(decimal_u64(magnitude).as_str());
        assert(s@ =~= seq!['-'] + decimal(magnitude as nat));
        s
    } else {
        decimal_u64(n as u64)
    }
}

/// Whether two strings hold the same characters.
pub fn same(a: &str, b: &str) -> (r: bool)
    ensures
        r == (a@ == b@),
{
    a.to_owned() == b.to_owned()
}

/// The characters of a string.
pub fn chars_of(s: &str) -> (v: Vec<char>)
    ensures
        v@ == s@,
{
    let mut v: Vec<char> = Vec::new();
    for c in it: s.chars()
        invariant
            v@ == s@.take(it.index()),
            it.seq() == s@,
    {
        v.push(c);
    }
    v
}

/// Whether `part` stands in `t` at position `at`.
pub open spec fn occurs_at(t: Seq<char>, part: Seq<char>, at: int) -> bool {
    0 <= at && at + part.len() <= t.len() && t.subrange(at, at + part.len()) == part
}

/// The first position at or after `from` where `part` stands in `t`.
pub open spec fn find_from(t: Seq<char>, part: Seq<char>, from: int) -> Option<int>
    decreases t.len() - from + 1,
{
    if from + part.len() > t.len() {
        None
    } else if occurs_at(t, part, from) {
        Some(from)
    } else {
        find_from(t, part, from + 1)
    }
}

/// The pieces of `t` between the non-overlapping occurrences of a separator, taken from
/// the left.
pub open spec fn split_at_sep(t: Seq<char>, sep: Seq<char>) -> Seq<Seq<char>>
    decreases t.len(),
{
    match find_from(t, sep, 0) {
        Some(k) if sep.len() > 0 && 0 <= k && k + sep.len() <= t.len() => seq![t.take(k)]
            + split_at_sep(t.skip(k + sep.len()), sep),
        _ => seq![t],
    }
}

/// The pieces of `t` around a separator. An empty separator stands before every character
/// and at the end.
pub open spec fn split_parts(t: Seq<char>, sep: Seq<char>) -> Seq<Seq<char>> {
    if sep.len() == 0 {
        seq![Seq::<char>::empty()] + Seq::new(t.len(), |i: int| seq![t[i]]) + seq![
            Seq::<char>::empty(),
        ]
    } else {
        split_at_sep(t, sep)
    }
}

/// An empty separator cuts a text into its characters, between an empty piece before the
/// first and one after the last.
pub proof fn law_empty_separator_cuts_everywhere(t: Seq<char>, i: int)
    ensures
        split_parts(t, Seq::empty()).len() == t.len() + 2,
        split_parts(t, Seq::empty())[0].len() == 0,
        split_parts(t, Seq::empty()).last().len() == 0,
        0 <= i < t.len() ==> split_parts(t, Seq::empty())[i + 1] == seq![t[i]],
        forall|sep: Seq<char>|
            sep.len() > 0 ==> #[trigger] split_parts(t, sep) == split_at_sep(t, sep),
{
}

/// The characters of each string of a list.
pub open spec fn views(list: Seq<String>) -> Seq<Seq<char>> {
    Seq::new(list.len(), |i: int| list[i]@)
}

/// Where a search succeeds, the part stands there and at no earlier position.
pub proof fn lemma_find_from(t: Seq<char>, part: Seq<char>, from: int)
    requires
        0 <= from,
    ensures
        match find_from(t, part, from) {
            Some(k) => from <= k && occurs_at(t, part, k) && forall|j: int|
                from <= j < k ==> !occurs_at(t, part, j),
            None => forall|j: int| from <= j ==> !occurs_at(t, part, j),
        },
    decreases t.len() - from + 1,
{
    if from + part.len() <= t.len() && !occurs_at(t, part, from) {
        lemma_find_from(t, part, from + 1);
    }
}

/// Searches for `part` from position `from` on.
pub fn find_chars(t: &[char], part: &[char], from: usize) -> (r: Option<usize>)
    requires
        from <= t@.len(),
    ensures
        match r {
            Some(k) => find_from(t@, part@, from as int) == Some(k as int),
            None => find_from(t@, part@, from as int) is None,
        },
{
    let n: usize = t.len();
    let mut at: usize = from;
    loop
        invariant
            n == t@.len(),
            from <= at <= n,
            find_from(t@, part@, from as int) == find_from(t@, part@, at as int),
        decreases t@.len() - at,
    {
        if part.len() > n - at {
            return None;
        }
        let mut i: usize = 0;
        while i < part.len() && t[at + i] == part[i]
            invariant
                n == t@.len(),
                i <= part@.len(),
                at + part@.len() <= n,
                forall|k: int| 0 <= k < i ==> t@[at + k] == part@[k],
            decreases part@.len() - i,
        {
            i = i + 1;
        }
        if i == part.len() {
            assert(t@.subrange(at as int, at + part@.len()) =~= part@);
            return Some(at);
        }
        proof {
            assert(t@.subrange(at as int, at + part@.len())[i as int] != part@[i as int]);
        }
        if at == n {
            return None;
        }
        at = at + 1;
    }
}

/// A copy of the characters from `from` up to `to`.
pub fn copy_range(t: &[char], from: usize, to: usize) -> (s: String)
    requires
        from <= to <= t@.len(),
    ensures
        s@ == t@.subrange(from as int, to as int),
{
    let mut s = String::new();
    let mut i: usize = from;
    while i < to
        invariant
            from <= i <= to <= t@.len(),
            s@ == t@.subrange(from as int, i as int),
        decreases to - i,
    {
        s.push(t[i]);
        i = i + 1;
        assert(t@.subrange(from as int, i as int) =~= t@.subrange(from as int, i - 1).push(
            t@[i - 1],
        ));
    }
    s
}

/// Splits `text` at a separator, as `str::split` does.
pub fn split(text: &str, sep: &str) -> (parts: Vec<String>)
    ensures
        views(parts@) == split_parts(text@, sep@),
{
    let t = chars_of(text);
    let p = chars_of(sep);
    let mut parts: Vec<String> = Vec::new();
    if p.len() == 0 {
        parts.push(String::new());
        for i in 0..t.len()
            invariant
                t@ == text@,
                parts@.len() == i + 1,
                parts@[0]@ == Seq::<char>::empty(),
                forall|k: int| 1 <= k <= i ==> (#[trigger] parts@[k])@ == seq![t@[k - 1]],
        {
            let mut one = String::new();
            one.push(t[i]);
            assert(one@ =~= seq![t@[i as int]]);
            parts.push(one);
        }
        parts.push(String::new());
        assert(views(parts@) =~= split_parts(text@, sep@));
        return parts;
    }
    let n: usize = t.len();
    let mut start: usize = 0;
    proof {
        assert(t@.skip(0) =~= t@);
        assert(views(parts@) + split_at_sep(t@.skip(0), p@) =~= split_at_sep(t@, p@));
    }
    loop
        invariant
            p@.len() > 0,
            t@ == text@,
            p@ == sep@,
            n == t@.len(),
            start <= n,
            views(parts@) + split_at_sep(t@.skip(start as int), p@) == split_at_sep(t@, p@),
        decreases t@.len() - start,
    {
        let found = find_chars(t.as_slice(), p.as_slice(), start);
        proof {
            lemma_find_shift(t@, p@, start as int, 0);
            lemma_find_from(t@, p@, start as int);
        }
        match found {
            Some(at) => {
                let ghost before = views(parts@);
                let ghost tail = t@.skip(start as int);
                proof {
                    assert(tail.take(at - start) =~= t@.subrange(start as int, at as int));
                    assert(tail.skip(at - start + p@.len()) =~= t@.skip(at + p@.len()));
                }
                let ghost piece = tail.take(at - start);
                parts.push(copy_range(t.as_slice(), start, at));
                start = at + p.len();
                proof {
                    assert(views(parts@) =~= before.push(piece));
                    assert(views(parts@) + split_at_sep(t@.skip(start as int), p@) =~= before
                        + split_at_sep(tail, p@));
                }
            },
            None => {
                let ghost before = views(parts@);
                parts.push(copy_range(t.as_slice(), start, n));
                proof {
                    assert(t@.subrange(start as int, t@.len() as int) =~= t@.skip(start as int));
                    assert(views(parts@) =~= before + seq![t@.skip(start as int)]);
                }
                return parts;
            },
        }
    }
}

/// A search in a suffix is a search in the whole, shifted.
proof fn lemma_find_shift(t: Seq<char>, part: Seq<char>, start: int, from: int)
    requires
        0 <= start <= t.len(),
        0 <= from,
    ensures
        find_from(t.skip(start), part, from) == match find_from(t, part, start + from) {
            Some(k) => Some(k - start),
            None => None,
        },
    decreases t.len() - start - from + 1,
{
    if start + from + part.len() <= t.len() {
        assert(t.skip(start).subrange(from, from + part.len()) =~= t.subrange(
            start + from,
            start + from + part.len(),
        ));
        if !occurs_at(t, part, start + from) {
            lemma_find_shift(t, part, start, from + 1);
        }
    }
}

/// The pieces of a text hold the separator nowhere, and putting them behind one another,
/// with the separator before each but the first, gives the text back.
pub proof fn law_pieces_give_the_text(t: Seq<char>, sep: Seq<char>)
    requires
        sep.len() > 0,
    ensures
        split_at_sep(t, sep).len() > 0,
        forall|i: int, at: int|
            0 <= i < split_at_sep(t, sep).len() ==> !#[trigger] occurs_at(
                split_at_sep(t, sep)[i],
                sep,
                at,
            ),
        t == split_at_sep(t, sep)[0] + split_at_sep(t, sep).skip(1).map_values(
            |piece: Seq<char>| sep + piece,
        ).flatten(),
    decreases t.len(),
{
    let parts = split_at_sep(t, sep);
    let f = |piece: Seq<char>| sep + piece;
    lemma_find_from(t, sep, 0);
    match find_from(t, sep, 0) {
        Some(k) => {
            let rest = t.skip(k + sep.len());
            let tail = split_at_sep(rest, sep);
            law_pieces_give_the_text(rest, sep);
            assert forall|i: int, at: int| 0 <= i < parts.len() implies !#[trigger] occurs_at(
                parts[i],
                sep,
                at,
            ) by {
                if i == 0 {
                    if occurs_at(t.take(k), sep, at) {
                        assert(t.take(k).subrange(at, at + sep.len()) =~= t.subrange(
                            at,
                            at + sep.len(),
                        ));
                        assert(occurs_at(t, sep, at));
                    }
                } else {
                    assert(parts[i] == tail[i - 1]);
                    assert(!occurs_at(tail[i - 1], sep, at));
                }
            }
            assert(parts.skip(1) =~= tail);
            let mapped = tail.map_values(f);
            assert(mapped.drop_first() =~= tail.skip(1).map_values(f));
            assert(mapped.first() == sep + tail[0]);
            assert(t =~= t.take(k) + t.subrange(k, k + sep.len()) + rest);
            assert(mapped.flatten() == mapped.first() + mapped.drop_first().flatten());
            assert(t =~= parts[0] + mapped.flatten());
        },
        None => {
            assert(parts =~= seq![t]);
            assert(parts.skip(1).map_values(f) =~= Seq::<Seq<char>>::empty());
            assert(t =~= parts[0] + Seq::<char>::empty());
        },
    }
}

/// Behind a separator of one character stands one more piece, where what follows does not
/// hold that character.
pub proof fn law_last_piece(t: Seq<char>, c: char, last: Seq<char>)
    requires
        !last.contains(c),
    ensures
        split_at_sep(t + seq![c] + last, seq![c]) == split_at_sep(t, seq![c]).push(last),
    decreases t.len(),
{
    let sep = seq![c];
    let whole = t + sep + last;
    lemma_find_from(t, sep, 0);
    lemma_find_from(whole, sep, 0);
    assert forall|at: int| #![trigger occurs_at(whole, sep, at)] 0 <= at < whole.len() implies (
    occurs_at(whole, sep, at) <==> whole[at] == c) by {
        assert(whole.subrange(at, at + 1) =~= seq![whole[at]]);
        assert(whole.subrange(at, at + 1)[0] == whole[at]);
    }
    assert(whole[t.len() as int] == c);
    assert(occurs_at(whole, sep, t.len() as int));
    match find_from(t, sep, 0) {
        Some(k) => {
            assert(t.subrange(k, k + 1)[0] == t[k]);
            assert(whole[k] == c);
            assert(occurs_at(whole, sep, k));
            let w = find_from(whole, sep, 0)->Some_0;
            assert(w <= k);
            if w < k {
                assert(t.subrange(w, w + 1) =~= seq![t[w]]);
                assert(occurs_at(t, sep, w));
            }
            let rest = t.skip(k + 1);
            assert(whole.skip(k + 1) =~= rest + sep + last);
            assert(whole.take(k) =~= t.take(k));
            law_last_piece(rest, c, last);
            assert(split_at_sep(whole, sep) =~= split_at_sep(t, sep).push(last));
        },
        None => {
            let w = find_from(whole, sep, 0)->Some_0;
            assert(w <= t.len());
            if w < t.len() {
                assert(t.subrange(w, w + 1) =~= seq![t[w]]);
                assert(occurs_at(t, sep, w));
            }
            assert(whole.take(w) =~= t);
            assert(whole.skip(w + 1) =~= last);
            lemma_find_from(last, sep, 0);
            if find_from(last, sep, 0) is Some {
                let j = find_from(last, sep, 0)->Some_0;
                assert(last.subrange(j, j + 1)[0] == last[j]);
                assert(last.contains(c));
            }
            assert(w == t.len());
            assert(split_at_sep(last, sep) =~= seq![last]);
            assert(split_at_sep(whole, sep) =~= seq![whole.take(w)] + split_at_sep(
                whole.skip(w + 1),
                sep,
            ));
            assert(split_at_sep(t, sep) =~= seq![t]);
            assert(split_at_sep(whole, sep) =~= split_at_sep(t, sep).push(last));
        },
    }
}

/// `rest` where `s` is `prefix` followed by `rest`.
pub open spec fn stripped(s: Seq<char>, prefix: Seq<char>) -> Option<Seq<char>> {
    if prefix.is_prefix_of(s) {
        Some(s.skip(prefix.len() as int))
    } else {
        None
    }
}

/// Removes a prefix, as `str::strip_prefix` does.
pub fn strip_prefix(s: &str, prefix: &str) -> (r: Option<String>)
    ensures
        match r {
            Some(rest) => stripped(s@, prefix@) == Some(rest@),
            None => stripped(s@, prefix@) is None,
        },
{
    let t = chars_of(s);
    let p = chars_of(prefix);
    if p.len() > t.len() {
        return None;
    }
    let mut i: usize = 0;
    while i < p.len()
        invariant
            i <= p@.len() <= t@.len(),
            t@ == s@,
            p@ == prefix@,
            forall|k: int| 0 <= k < i ==> t@[k] == p@[k],
        decreases p@.len() - i,
    {
        if t[i] != p[i] {
            return None;
        }
        i = i + 1;
    }
    proof {
        assert(p@ =~= t@.subrange(0, p@.len() as int));
        assert(t@.subrange(p@.len() as int, t@.len() as int) =~= t@.skip(p@.len() as int));
    }
    Some(copy_range(t.as_slice(), p.len(), t.len()))
}

/// Whether the text ends with a slash.
pub open spec fn ends_with_slash(s: Seq<char>) -> bool {
    s.len() > 0 && s.last() == '/'
}

/// The path `rel` seen from the directory `base`: an absolute `rel` stands alone.
pub open spec fn joined(base: Seq<char>, rel: Seq<char>) -> Seq<char> {
    if rel.len() > 0 && rel[0] == '/' {
        rel
    } else if base.len() == 0 || ends_with_slash(base) {
        base + rel
    } else {
        base + seq!['/'] + rel
    }
}

/// An absolute path stands alone wherever it is seen from. Any other is put behind the
/// directory, with one slash between them unless the directory ends with one or is empty.
pub proof fn law_path_is_put_behind_the_directory(base: Seq<char>, rel: Seq<char>)
    ensures
        rel.len() > 0 && rel[0] == '/' ==> joined(base, rel) == rel,
        (rel.len() == 0 || rel[0] != '/') && base.len() > 0 && base.last() != '/' ==> joined(
            base,
            rel,
        ) == base.push('/') + rel,
        (rel.len() == 0 || rel[0] != '/') && (base.len() == 0 || base.last() == '/') ==> joined(
            base,
            rel,
        ) == base + rel,
{
    assert(base.push('/') + rel =~= base + seq!['/'] + rel);
}

/// Joins two Unix paths.
pub fn join_path(base: &str, rel: &str) -> (s: String)
    ensures
        s@ == joined(base@, rel@),
{
    let r = chars_of(rel);
    if r.len() > 0 && r[0] == '/' {
        return rel.to_owned();
    }
    let b = chars_of(base);
    let mut s = base.to_owned();
    if b.len() > 0 && b[b.len() - 1] != '/' {
        s.push('/');
        assert(s@ =~= base@ + seq!['/']);
    }
    s.append(rel);
    s
}

/// Whether `a` comes before `b` or equals it when strings are ordered by code point.
pub open spec fn text_le(a: Seq<char>, b: Seq<char>) -> bool
    decreases a.len(),
{
    if a.len() == 0 {
        true
    } else if b.len() == 0 {
        false
    } else if a[0] != b[0] {
        a[0] < b[0]
    } else {
        text_le(a.drop_first(), b.drop_first())
    }
}

/// Texts that agree up to some place are ordered by the characters at that place; one that
/// ends there comes first.
pub proof fn law_first_difference_decides(a: Seq<char>, b: Seq<char>, k: int)
    requires
        0 <= k <= a.len(),
        k <= b.len(),
        a.take(k) == b.take(k),
    ensures
        k == a.len() ==> text_le(a, b),
        k < a.len() && k == b.len() ==> !text_le(a, b),
        k < a.len() && k < b.len() && a[k] != b[k] ==> text_le(a, b) == (a[k] < b[k]),
    decreases k,
{
    if k > 0 {
        assert(a.take(k)[0] == a[0] && b.take(k)[0] == b[0]);
        let (x, y) = (a.drop_first(), b.drop_first());
        assert(x.take(k - 1) =~= a.take(k).drop_first());
        assert(y.take(k - 1) =~= b.take(k).drop_first());
        law_first_difference_decides(x, y, k - 1);
    }
}

/// Orders strings by code point.
pub fn text_not_after(a: &str, b: &str) -> (r: bool)
    ensures
        r == text_le(a@, b@),
{
    let x = chars_of(a);
    let y = chars_of(b);
    let mut i: usize = 0;
    proof {
        assert(x@.skip(0) =~= x@);
        assert(y@.skip(0) =~= y@);
    }
    while i < x.len()
        invariant
            x@ == a@,
            y@ == b@,
            i <= x@.len(),
            i <= y@.len(),
            text_le(a@, b@) == text_le(x@.skip(i as int), y@.skip(i as int)),
        decreases x@.len() - i,
    {
        if i == y.len() {
            return false;
        }
        if x[i] != y[i] {
            return x[i] < y[i];
        }
        proof {
            assert(x@.skip(i as int).drop_first() =~= x@.skip(i + 1));
            assert(y@.skip(i as int).drop_first() =~= y@.skip(i + 1));
        }
        i = i + 1;
    }
    true
}

/// The text that Rust's `{:?}` writes for a string: quoted, with special characters escaped.
pub uninterp spec fn debug_text(s: Seq<char>) -> Seq<char>;

/// `format!` with `{:?}` quotes a string.
#[verifier::external_body]
pub(crate) fn debug_quoted(s: &str) -> (r: String)
    ensures
        r@ == debug_text(s@),
{
    format!("{:?}", s)
}

/// The text of the error that `std::str::from_utf8` gives for bytes that are not UTF-8.
pub uninterp spec fn utf8_error(bytes: Seq<u8>) -> Seq<char>;

/// `std::str::from_utf8` reads bytes that are valid UTF-8. For others it gives an error that
/// has a text.
#[verifier::external_body]
pub(crate) fn utf8_text(bytes: &[u8]) -> (r: Result<String, String>)
    ensures
        match r {
            Ok(s) => vstd::utf8::valid_utf8(bytes@) && s@ == vstd::utf8::decode_utf8(bytes@),
            Err(e) => !vstd::utf8::valid_utf8(bytes@) && e@ == utf8_error(bytes@),
        },
{
    std::str::from_utf8(bytes).map(|s| s.to_owned()).map_err(|e| e.to_string())
}

/// The text that `String::from_utf8_lossy` makes of bytes.
pub uninterp spec fn lossy_text(bytes: Seq<u8>) -> Seq<char>;

/// `String::from_utf8_lossy` reads bytes as UTF-8 and replaces what is invalid. Bytes that
/// are valid UTF-8 it reads as they are.
#[verifier::external_body]
pub(crate) fn utf8_lossy(bytes: &[u8]) -> (s: String)
    ensures
        s@ == lossy_text(bytes@),
        vstd::utf8::valid_utf8(bytes@) ==> s@ == vstd::utf8::decode_utf8(bytes@),
{
    String::from_utf8_lossy(bytes).into_owned()
}

/// Joins two texts.
pub fn concat(a: &str, b: &str) -> (s: String)
    ensures
        s@ == a@ + b@,
{
    let mut s = a.to_owned();
    s.append(b);
    s
}

/// Texts with a separator between them.
pub open spec fn join_with(parts: Seq<Seq<char>>, sep: Seq<char>) -> Seq<char>
    decreases parts.len(),
{
    if parts.len() == 0 {
        seq![]
    } else if parts.len() == 1 {
        parts[0]
    } else {
        join_with(parts.drop_last(), sep) + sep + parts.last()
    }
}

/// Joined texts are the first one and then every other, each behind the separator.
pub proof fn law_texts_are_joined(parts: Seq<Seq<char>>, sep: Seq<char>)
    ensures
        parts.len() == 0 ==> join_with(parts, sep).len() == 0,
        parts.len() > 0 ==> join_with(parts, sep) == parts[0] + parts.skip(1).map_values(
            |part: Seq<char>| sep + part,
        ).flatten(),
    decreases parts.len(),
{
    let f = |part: Seq<char>| sep + part;
    if parts.len() == 1 {
        assert(parts.skip(1).map_values(f) =~= Seq::<Seq<char>>::empty());
        assert(parts[0] =~= parts[0] + Seq::<char>::empty());
    } else if parts.len() > 1 {
        let init = parts.drop_last();
        law_texts_are_joined(init, sep);
        assert(parts.skip(1).map_values(f) =~= init.skip(1).map_values(f).push(
            sep + parts.last(),
        ));
        init.skip(1).map_values(f).lemma_flatten_push(sep + parts.last());
        assert(join_with(parts, sep) =~= parts[0] + parts.skip(1).map_values(f).flatten());
    }
}

/// Joins texts with a separator between them.
pub fn join_list(parts: &[String], sep: &str) -> (s: String)
    ensures
        s@ == join_with(views(parts@), sep@),
{
    let ghost all = views(parts@);
    let mut s = String::new();
    assert(all.take(0) =~= seq![]);
    assert(s@ =~= join_with(all.take(0), sep@));
    for i in 0..parts.len()
        invariant
            all == views(parts@),
            s@ == join_with(all.take(i as int), sep@),
    {
        proof {
            assert(all.take(i + 1).drop_last() =~= all.take(i as int));
            assert(all.take(i + 1).last() == parts@[i as int]@);
        }
        if i > 0 {
            s.append(sep);
            s.append(parts[i].as_str());
        } else {
            s = parts[i].clone();
        }
    }
    assert(all.take(all.len() as int) =~= all);
    s
}

/// The path without its final component, as `std::path::Path::parent` gives it.
pub uninterp spec fn parent_path(path: Seq<char>) -> Option<Seq<char>>;

/// The final component of a path, as `std::path::Path::file_name` gives it.
pub uninterp spec fn final_component(path: Seq<char>) -> Option<Seq<char>>;

/// The characters of an optional string.
pub open spec fn opt_chars(s: Option<String>) -> Option<Seq<char>> {
    match s {
        Some(t) => Some(t@),
        None => None,
    }
}

/// Whether a path leads up from another: it is a shorter start of it, and not empty.
pub open spec fn leads_up(path: Seq<char>, up: Seq<char>) -> bool {
    0 < up.len() < path.len() && up == path.take(up.len() as int)
}

/// Whether a path starts at the root.
pub open spec fn from_root(path: Seq<char>) -> bool {
    path.len() > 0 && path[0] == '/'
}

/// `std::path::Path::parent` gives the path without its final component: of one that starts
/// at the root, a shorter start that does so too.
#[verifier::external_body]
pub(crate) fn path_parent(path: &str) -> (r: Option<String>)
    ensures
        opt_chars(r) == parent_path(path@),
        from_root(path@) ==> (r matches Some(p) ==> leads_up(path@, p@)),
{
    std::path::Path::new(path).parent().map(|p| p.to_string_lossy().into_owned())
}

/// `std::path::Path::file_name` gives the final component of a path.
#[verifier::external_body]
pub(crate) fn path_file_name(path: &str) -> (r: Option<String>)
    ensures
        opt_chars(r) == final_component(path@),
{
    std::path::Path::new(path).file_name().map(|n| n.to_string_lossy().into_owned())
}

/// A line without the carriage return at its end.
pub open spec fn without_cr(line: Seq<char>) -> Seq<char> {
    if line.len() > 0 && line.last() == '\r' {
        line.drop_last()
    } else {
        line
    }
}

/// The first newline at or after a position.
pub open spec fn newline_from(t: Seq<char>, from: int) -> int
    decreases t.len() - from,
{
    if from >= t.len() || t[from] == '\n' {
        from
    } else {
        newline_from(t, from + 1)
    }
}

/// The lines of the text from a position on. A line ends at a newline or at a carriage
/// return and a newline; the last line may lack its ending.
pub open spec fn lines_from(t: Seq<char>, from: int) -> Seq<Seq<char>>
    decreases t.len() - from,
{
    let end = newline_from(t, from);
    if from >= t.len() {
        seq![]
    } else if from <= end < t.len() {
        seq![without_cr(t.subrange(from, end))] + lines_from(t, end + 1)
    } else {
        seq![t.subrange(from, t.len() as int)]
    }
}

/// Up to its first newline a text is one line, without a carriage return at its end, and what
/// follows the newline gives the other lines.
pub proof fn law_newline_ends_a_line(line: Seq<char>, rest: Seq<char>)
    requires
        !line.contains('\n'),
    ensures
        line.len() > 0 && line.last() == '\r' ==> lines_from(line.push('\n') + rest, 0) == seq![
            line.drop_last(),
        ] + lines_from(rest, 0),
        line.len() == 0 || line.last() != '\r' ==> lines_from(line.push('\n') + rest, 0) == seq![
            line,
        ] + lines_from(rest, 0),
{
    let t = line.push('\n') + rest;
    let n = line.len() as int;
    lemma_newline_at(t, 0, n);
    assert(t.subrange(0, n) =~= line);
    lemma_lines_shift(t, n + 1, 0);
    assert(t.skip(n + 1) =~= rest);
}

/// A text without newlines is a single line, and an empty one has no line.
pub proof fn law_rest_is_a_line(t: Seq<char>)
    requires
        !t.contains('\n'),
    ensures
        t.len() > 0 ==> lines_from(t, 0) == seq![t],
        t.len() == 0 ==> lines_from(t, 0).len() == 0,
{
    lemma_no_newline(t, 0);
    assert(t.subrange(0, t.len() as int) =~= t);
}

proof fn lemma_no_newline(t: Seq<char>, from: int)
    requires
        0 <= from <= t.len(),
        !t.contains('\n'),
    ensures
        newline_from(t, from) == t.len(),
    decreases t.len() - from,
{
    if from < t.len() {
        assert(t.contains(t[from]));
        lemma_no_newline(t, from + 1);
    }
}

proof fn lemma_newline_at(t: Seq<char>, from: int, at: int)
    requires
        0 <= from <= at < t.len(),
        t[at] == '\n',
        !t.take(at).contains('\n'),
    ensures
        newline_from(t, from) == at,
    decreases at - from,
{
    if from < at {
        assert(t.take(at)[from] == t[from]);
        lemma_newline_at(t, from + 1, at);
    }
}

proof fn lemma_newline_shift(t: Seq<char>, k: int, from: int)
    requires
        0 <= k <= t.len(),
        0 <= from,
    ensures
        newline_from(t, k + from) == newline_from(t.skip(k), from) + k,
    decreases t.len() - k - from,
{
    if k + from < t.len() && t[k + from] != '\n' {
        lemma_newline_shift(t, k, from + 1);
    }
}

proof fn lemma_lines_shift(t: Seq<char>, k: int, from: int)
    requires
        0 <= k <= t.len(),
        0 <= from,
    ensures
        lines_from(t, k + from) == lines_from(t.skip(k), from),
    decreases t.len() - k - from,
{
    let u = t.skip(k);
    lemma_newline_shift(t, k, from);
    let end = newline_from(u, from);
    if k + from < t.len() {
        if from <= end < u.len() {
            assert(u.subrange(from, end) =~= t.subrange(k + from, k + end));
            lemma_lines_shift(t, k, end + 1);
        } else {
            assert(u.subrange(from, u.len() as int) =~= t.subrange(k + from, t.len() as int));
        }
    }
}

/// The lines of a text, as `str::lines` gives them.
pub fn lines_of(s: &str) -> (lines: Vec<String>)
    ensures
        views(lines@) == lines_from(s@, 0),
{
    let t = chars_of(s);
    let n: usize = t.len();
    let mut lines: Vec<String> = Vec::new();
    let mut start: usize = 0;
    assert(views(lines@) + lines_from(t@, 0) =~= lines_from(t@, 0));
    while start < n
        invariant
            n == t@.len(),
            t@ == s@,
            start <= n,
            views(lines@) + lines_from(t@, start as int) == lines_from(s@, 0),
        decreases n - start,
    {
        let ghost before = views(lines@);
        let mut end: usize = start;
        while end < n && t[end] != '\n'
            invariant
                n == t@.len(),
                start <= end <= n,
                newline_from(t@, start as int) == newline_from(t@, end as int),
            decreases n - end,
        {
            end = end + 1;
        }
        assert(newline_from(t@, start as int) == end);
        if end < n && end > start && t[end - 1] == '\r' {
            let ghost piece = t@.subrange(start as int, end as int);
            assert(piece.last() == t@[end - 1]);
            assert(piece.drop_last() =~= t@.subrange(start as int, end - 1));
            lines.push(copy_range(t.as_slice(), start, end - 1));
        } else {
            lines.push(copy_range(t.as_slice(), start, end));
        }
        proof {
            let tail = if end < n {
                lines_from(t@, end + 1)
            } else {
                seq![]
            };
            let piece = t@.subrange(start as int, end as int);
            let line = lines@.last()@;
            if end > start {
                assert(piece.last() == t@[end - 1]);
            }
            assert(lines_from(t@, start as int) =~= seq![line] + tail);
            assert(views(lines@) =~= before.push(line));
            assert(views(lines@) + tail =~= before + lines_from(t@, start as int));
        }
        start = if end < n {
            end + 1
        } else {
            n
        };
    }
    assert(views(lines@) + lines_from(t@, n as int) =~= views(lines@));
    lines
}

/// Whether a character is a decimal digit.
pub open spec fn is_digit(c: char) -> bool {
    '0' <= c <= '9'
}

/// The number that decimal digits denote.
pub open spec fn digits_value(d: Seq<char>) -> int
    decreases d.len(),
{
    if d.len() == 0 {
        0
    } else {
        digits_value(d.drop_last()) * 10 + (d.last() as int - '0' as int)
    }
}

/// The digits of a numeral, without its sign.
pub open spec fn unsigned_part(s: Seq<char>) -> Seq<char> {
    if s.len() > 0 && (s[0] == '-' || s[0] == '+') {
        s.skip(1)
    } else {
        s
    }
}

/// The integer that a text denotes: an optional sign and one or more decimal digits.
pub open spec fn parsed_int(s: Seq<char>) -> Option<int> {
    let d = unsigned_part(s);
    if d.len() > 0 && forall|i: int| 0 <= i < d.len() ==> is_digit(#[trigger] d[i]) {
        Some(
            if s[0] == '-' {
                -digits_value(d)
            } else {
                digits_value(d)
            },
        )
    } else {
        None
    }
}

/// The numeral of an integer is read as that integer.
pub proof fn law_numeral_is_read_back(n: int)
    ensures
        parsed_int(decimal_int(n)) == Some(n),
{
    let amount = (if n < 0 {
        -n
    } else {
        n
    }) as nat;
    law_numeral_denotes_its_number(amount);
    lemma_digits_are_folded(decimal(amount));
    let d = decimal(amount);
    assert(forall|i: int| 0 <= i < d.len() ==> is_digit(#[trigger] d[i]));
    assert(is_digit(d[0]));
    if n < 0 {
        assert(decimal_int(n).skip(1) =~= d);
    }
}

/// A text denotes an integer exactly where it holds digits alone, and at least one, behind
/// at most one sign. The digits count from the left, each for one more and ten times what
/// stands before it, and a minus sign makes the number negative.
pub proof fn law_digits_behind_a_sign(d: Seq<char>)
    requires
        d.len() > 0,
        d[0] != '-' && d[0] != '+',
    ensures
        ({
            let value = d.fold_left(0int, |v: int, c: char| 10 * v + (c as int - 48));
            let digits = forall|i: int| 0 <= i < d.len() ==> '0' <= (#[trigger] d[i]) <= '9';
            &&& digits ==> parsed_int(d) == Some(value) && parsed_int(seq!['+'] + d) == Some(value)
                && parsed_int(seq!['-'] + d) == Some(-value)
            &&& !digits ==> parsed_int(d) is None && parsed_int(seq!['+'] + d) is None
                && parsed_int(seq!['-'] + d) is None
        }),
        parsed_int(Seq::empty()) is None,
        parsed_int(seq!['+']) is None,
        parsed_int(seq!['-']) is None,
{
    lemma_digits_are_folded(d);
    assert((seq!['+'] + d).skip(1) =~= d);
    assert((seq!['-'] + d).skip(1) =~= d);
    let digits = forall|i: int| 0 <= i < d.len() ==> '0' <= (#[trigger] d[i]) <= '9';
    if digits {
        assert(forall|i: int| 0 <= i < d.len() ==> is_digit(#[trigger] d[i]));
    } else {
        let i = choose|i: int| 0 <= i < d.len() && !('0' <= (#[trigger] d[i]) <= '9');
        assert(!is_digit(d[i]));
    }
}

proof fn lemma_digits_are_folded(d: Seq<char>)
    ensures
        digits_value(d) == d.fold_left(0int, |v: int, c: char| 10 * v + (c as int - 48)),
    decreases d.len(),
{
    if d.len() > 0 {
        let value = |v: int, c: char| 10 * v + (c as int - 48);
        lemma_digits_are_folded(d.drop_last());
        assert(d.fold_left(0int, value) == value(d.drop_last().fold_left(0int, value), d.last()));
    }
}

/// Further digits do not make a number smaller.
proof fn lemma_digits_grow(d: Seq<char>, i: int)
    requires
        0 <= i <= d.len(),
        forall|k: int| 0 <= k < d.len() ==> is_digit(#[trigger] d[k]),
    ensures
        0 <= digits_value(d.take(i)) <= digits_value(d),
    decreases d.len(),
{
    if d.len() > 0 {
        let init = d.drop_last();
        assert forall|k: int| 0 <= k < init.len() implies is_digit(#[trigger] init[k]) by {
            assert(init[k] == d[k]);
        }
        assert(is_digit(d[d.len() - 1]));
        if i < d.len() {
            lemma_digits_grow(init, i);
            assert(init.take(i) =~= d.take(i));
        } else {
            lemma_digits_grow(init, init.len() as int);
            assert(init.take(init.len() as int) =~= init);
            assert(d.take(i) =~= d);
        }
    } else {
        assert(d.take(i) =~= d);
    }
}

/// Reads an integer, as `str::parse` does for an `i32`.
pub fn parse_i32(s: &str) -> (r: Option<i32>)
    ensures
        match r {
            Some(n) => parsed_int(s@) == Some(n as int),
            None => parsed_int(s@) matches Some(n) ==> n < i32::MIN || n > i32::MAX,
        },
{
    let t = chars_of(s);
    let n: usize = t.len();
    let negative = n > 0 && t[0] == '-';
    let start: usize = if n > 0 && (t[0] == '-' || t[0] == '+') {
        1
    } else {
        0
    };
    let ghost d = unsigned_part(s@);
    proof {
        assert(t@.skip(start as int) =~= d);
    }
    if start == n {
        return None;
    }
    let mut value: i64 = 0;
    let mut i: usize = start;
    let mut too_large = false;
    assert(d.take(0) =~= seq![]);
    while i < n
        invariant
            n == t@.len(),
            t@ == s@,
            start <= i <= n,
            start <= 1,
            d == unsigned_part(s@),
            d == t@.skip(start as int),
            forall|k: int| 0 <= k < i - start ==> is_digit(#[trigger] d[k]),
            !too_large ==> 0 <= value <= 2147483648 && value == digits_value(d.take(i - start)),
            too_large ==> exists|k: int|
                0 <= k <= i - start && #[trigger] digits_value(d.take(k)) > 2147483648,
        decreases n - i,
    {
        let c = t[i];
        assert(d[i - start] == c);
        if !('0' <= c && c <= '9') {
            return None;
        }
        proof {
            assert(d.take(i + 1 - start).drop_last() =~= d.take(i - start));
            assert(d.take(i + 1 - start).last() == c);
        }
        if !too_large {
            let digit: i64 = (c as u32 - '0' as u32) as i64;
            let next: i64 = value * 10 + digit;
            assert(next == digits_value(d.take(i + 1 - start)));
            if next > 2147483648 {
                too_large = true;
            } else {
                value = next;
            }
        }
        i = i + 1;
    }
    assert(d.take(d.len() as int) =~= d);
    if too_large {
        proof {
            let k = choose|k: int|
                0 <= k <= d.len() && #[trigger] digits_value(d.take(k)) > 2147483648;
            lemma_digits_grow(d, k);
        }
        return None;
    }
    if negative {
        Some((-value) as i32)
    } else if value <= 2147483647 {
        Some(value as i32)
    } else {
        None
    }
}

/// Whether a text holds a character.
pub fn holds_char(s: &str, c: char) -> (r: bool)
    ensures
        r == s@.contains(c),
{
    let t = chars_of(s);
    for i in 0..t.len()
        invariant
            t@ == s@,
            forall|k: int| 0 <= k < i ==> t@[k] != c,
    {
        if t[i] == c {
            return true;
        }
    }
    false
}

} // verus!

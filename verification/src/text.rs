//! Character-sequence utilities shared by the interpreter core: splitting a
//! line on a delimiter, rejoining tokens, and trimming whitespace.
//!
//! The spec functions model text as `Seq<char>`; each executable function is
//! proved to compute exactly its spec counterpart.

use vstd::prelude::*;
use vstd::string::StrSliceExecFns;
use vstd::string::StringExecFns;

verus! {

/// The characters with the Unicode White_Space property, the set that
/// `str::trim` removes at the ends of a string.
pub open spec fn is_space_char(c: char) -> bool {
    let u = c as u32;
    ||| u == 0x20
    ||| (0x09 <= u && u <= 0x0D)
    ||| u == 0x85
    ||| u == 0xA0
    ||| u == 0x1680
    ||| (0x2000 <= u && u <= 0x200A)
    ||| u == 0x2028
    ||| u == 0x2029
    ||| u == 0x202F
    ||| u == 0x205F
    ||| u == 0x3000
}

pub fn is_space(c: char) -> (b: bool)
    ensures
        b == is_space_char(c),
{
    let u = c as u32;
    u == 0x20 || (0x09 <= u && u <= 0x0D) || u == 0x85 || u == 0xA0 || u == 0x1680 || (0x2000
        <= u && u <= 0x200A) || u == 0x2028 || u == 0x2029 || u == 0x202F || u == 0x205F || u
        == 0x3000
}

/// Splits `s` at every occurrence of `sep`. Neighbouring separators yield
/// empty pieces; the result always has at least one piece.
pub open spec fn split_on(s: Seq<char>, sep: char) -> Seq<Seq<char>>
    decreases s.len(),
{
    if s.len() == 0 {
        seq![Seq::<char>::empty()]
    } else if s[0] == sep {
        seq![Seq::<char>::empty()] + split_on(s.skip(1), sep)
    } else {
        let rest = split_on(s.skip(1), sep);
        seq![seq![s[0]] + rest[0]] + rest.skip(1)
    }
}

pub proof fn lemma_split_on_len(s: Seq<char>, sep: char)
    ensures
        split_on(s, sep).len() >= 1,
    decreases s.len(),
{
    if s.len() > 0 {
        lemma_split_on_len(s.skip(1), sep);
    }
}

/// Splitting cuts at the first separator: if no separator occurs before
/// position `j`, the first piece runs up to `j`.
pub proof fn lemma_split_on_first_sep(s: Seq<char>, sep: char, j: int)
    requires
        0 <= j <= s.len(),
        forall|k: int| 0 <= k < j ==> s[k] != sep,
    ensures
        j == s.len() ==> split_on(s, sep) == seq![s],
        j < s.len() && s[j] == sep ==> split_on(s, sep) == seq![s.take(j)] + split_on(
            s.skip(j + 1),
            sep,
        ),
    decreases j,
{
    if j == 0 {
        if s.len() == 0 {
            assert(s =~= Seq::<char>::empty());
            assert(split_on(s, sep) =~= seq![s]);
        } else if s[0] == sep {
            assert(s.take(0) =~= Seq::<char>::empty());
            assert(split_on(s, sep) =~= seq![s.take(0)] + split_on(s.skip(1), sep));
        }
    } else {
        let tail = s.skip(1);
        lemma_split_on_first_sep(tail, sep, j - 1);
        let rest = split_on(tail, sep);
        if j == s.len() {
            assert(rest == seq![tail]);
            assert(seq![s[0]] + rest[0] =~= s);
            assert(rest.skip(1) =~= Seq::<Seq<char>>::empty());
            assert(split_on(s, sep) =~= seq![s]);
        } else if s[j] == sep {
            assert(tail[j - 1] == sep);
            assert(rest == seq![tail.take(j - 1)] + split_on(tail.skip(j), sep));
            assert(tail.skip(j) =~= s.skip(j + 1));
            assert(rest[0] == tail.take(j - 1));
            assert(seq![s[0]] + tail.take(j - 1) =~= s.take(j));
            assert(rest.skip(1) =~= split_on(s.skip(j + 1), sep));
            assert(split_on(s, sep) =~= seq![s.take(j)] + split_on(s.skip(j + 1), sep));
        }
    }
}

/// Joins pieces with `sep` between neighbours.
pub open spec fn join_with(parts: Seq<Seq<char>>, sep: char) -> Seq<char>
    decreases parts.len(),
{
    if parts.len() == 0 {
        Seq::empty()
    } else if parts.len() == 1 {
        parts[0]
    } else {
        parts[0] + seq![sep] + join_with(parts.skip(1), sep)
    }
}

/// Joining what splitting produced restores the original text: splitting
/// loses nothing, not even runs of separators.
pub proof fn lemma_join_split(s: Seq<char>, sep: char)
    ensures
        join_with(split_on(s, sep), sep) == s,
    decreases s.len(),
{
    if s.len() == 0 {
        assert(join_with(split_on(s, sep), sep) =~= s);
    } else {
        let tail = s.skip(1);
        let rest = split_on(tail, sep);
        lemma_join_split(tail, sep);
        lemma_split_on_len(tail, sep);
        if s[0] == sep {
            let parts = seq![Seq::<char>::empty()] + rest;
            assert(parts.len() >= 2);
            assert(parts.skip(1) =~= rest);
            assert(join_with(parts, sep) =~= seq![sep] + join_with(rest, sep));
            assert(seq![sep] + tail =~= s);
        } else {
            let first = seq![s[0]] + rest[0];
            let parts = seq![first] + rest.skip(1);
            if rest.len() == 1 {
                assert(join_with(rest, sep) == rest[0]);
                assert(parts.len() == 1);
                assert(join_with(parts, sep) == first);
                assert(first =~= s);
            } else {
                assert(join_with(rest, sep) == rest[0] + seq![sep] + join_with(
                    rest.skip(1),
                    sep,
                ));
                assert(parts.len() >= 2);
                assert(parts.skip(1) =~= rest.skip(1));
                assert(join_with(parts, sep) == first + seq![sep] + join_with(rest.skip(1), sep));
                assert(first + seq![sep] + join_with(rest.skip(1), sep) =~= seq![s[0]] + (rest[0]
                    + seq![sep] + join_with(rest.skip(1), sep)));
                assert(seq![s[0]] + tail =~= s);
            }
        }
    }
}

/// The joined text begins with the first piece.
pub proof fn lemma_join_first(parts: Seq<Seq<char>>, sep: char)
    requires
        parts.len() >= 1,
    ensures
        join_with(parts, sep).len() >= parts[0].len(),
        join_with(parts, sep).take(parts[0].len() as int) == parts[0],
{
    if parts.len() == 1 {
        assert(join_with(parts, sep).take(parts[0].len() as int) =~= parts[0]);
    } else {
        assert(join_with(parts, sep).take(parts[0].len() as int) =~= parts[0]);
    }
}

/// Joining one more piece appends a separator and that piece.
pub proof fn lemma_join_snoc(parts: Seq<Seq<char>>, sep: char)
    requires
        parts.len() >= 2,
    ensures
        join_with(parts, sep) == join_with(parts.drop_last(), sep) + seq![sep] + parts.last(),
    decreases parts.len(),
{
    if parts.len() == 2 {
        assert(parts.skip(1).len() == 1);
        assert(parts.skip(1)[0] == parts[1]);
        assert(join_with(parts.skip(1), sep) == parts[1]);
        assert(parts.drop_last().len() == 1);
        assert(parts.drop_last()[0] == parts[0]);
        assert(join_with(parts.drop_last(), sep) == parts[0]);
    } else {
        let tail = parts.skip(1);
        lemma_join_snoc(tail, sep);
        assert(tail.drop_last() =~= parts.drop_last().skip(1));
        assert(tail.last() == parts.last());
        assert(parts.drop_last().len() >= 2);
        assert(join_with(parts.drop_last(), sep) == parts[0] + seq![sep] + join_with(
            parts.drop_last().skip(1),
            sep,
        ));
        assert(parts[0] + seq![sep] + (join_with(tail.drop_last(), sep) + seq![sep]
            + tail.last()) =~= (parts[0] + seq![sep] + join_with(tail.drop_last(), sep))
            + seq![sep] + tail.last());
    }
}

/// Splits a string at every occurrence of `sep`, as `split_on` describes.
pub fn split_str(s: &str, sep: char) -> (r: Vec<String>)
    ensures
        r.deep_view() == split_on(s@, sep),
{
    let n = s.unicode_len();
    let mut r: Vec<String> = Vec::new();
    let mut pos: usize = 0;
    proof {
        assert(s@.skip(0) =~= s@);
        assert(r.deep_view() + split_on(s@, sep) =~= split_on(s@, sep));
    }
    loop
        invariant
            pos <= n,
            n == s@.len(),
            split_on(s@, sep) == r.deep_view() + split_on(s@.skip(pos as int), sep),
        decreases n - pos,
    {
        let mut j = pos;
        while j < n && s.get_char(j) != sep
            invariant
                pos <= j <= n,
                n == s@.len(),
                forall|k: int| pos <= k < j ==> s@[k] != sep,
            decreases n - j,
        {
            j += 1;
        }
        let piece = s.substring_char(pos, j).to_owned();
        proof {
            lemma_split_on_first_sep(s@.skip(pos as int), sep, j - pos);
            assert(s@.skip(pos as int).take(j - pos) =~= s@.subrange(pos as int, j as int));
        }
        r.push(piece);
        if j == n {
            proof {
                assert(s@.skip(pos as int) =~= s@.subrange(pos as int, j as int));
                assert(r.deep_view() =~= split_on(s@, sep));
            }
            return r;
        }
        proof {
            assert(s@.skip(pos as int).skip(j - pos + 1) =~= s@.skip(j + 1));
            assert(r.deep_view() + split_on(s@.skip(j + 1), sep) =~= split_on(s@, sep));
        }
        pos = j + 1;
    }
}

/// Joins tokens with single spaces, as `join_with` describes.
pub fn join_spaces(parts: &Vec<String>) -> (r: String)
    ensures
        r@ == join_with(parts.deep_view(), ' '),
{
    let mut r = String::new();
    let mut i: usize = 0;
    proof {
        reveal_strlit(" ");
        assert((" ")@ =~= seq![' ']);
    }
    while i < parts.len()
        invariant
            i <= parts@.len(),
            i == 0 ==> r@ == Seq::<char>::empty(),
            i >= 1 ==> r@ == join_with(parts.deep_view().take(i as int), ' '),
            (" ")@ == seq![' '],
        decreases parts@.len() - i,
    {
        if i == 0 {
            r.append(parts[0].as_str());
            proof {
                assert(parts.deep_view().take(1).len() == 1);
                assert(parts.deep_view().take(1)[0] == parts@[0]@);
                assert(r@ == join_with(parts.deep_view().take(1), ' '));
            }
        } else {
            r.append(" ");
            r.append(parts[i].as_str());
            proof {
                let prefix = parts.deep_view().take(i + 1);
                lemma_join_snoc(prefix, ' ');
                assert(prefix.drop_last() =~= parts.deep_view().take(i as int));
                assert(prefix.last() == parts@[i as int]@);
                assert(r@ =~= join_with(prefix, ' '));
            }
        }
        i += 1;
    }
    proof {
        if parts@.len() == 0 {
            assert(join_with(parts.deep_view(), ' ') =~= Seq::<char>::empty());
        } else {
            assert(parts.deep_view().take(parts@.len() as int) =~= parts.deep_view());
        }
    }
    r
}

/// Drops every leading whitespace character.
pub open spec fn trim_front(s: Seq<char>) -> Seq<char>
    decreases s.len(),
{
    if s.len() > 0 && is_space_char(s[0]) {
        trim_front(s.skip(1))
    } else {
        s
    }
}

/// Drops every trailing whitespace character.
pub open spec fn trim_back(s: Seq<char>) -> Seq<char>
    decreases s.len(),
{
    if s.len() > 0 && is_space_char(s[s.len() - 1]) {
        trim_back(s.take(s.len() - 1))
    } else {
        s
    }
}

/// Whitespace removed from both ends, as `str::trim` does.
pub open spec fn trimmed(s: Seq<char>) -> Seq<char> {
    trim_back(trim_front(s))
}

/// Removes whitespace from both ends of a string, as `trimmed` describes.
pub fn trim_str(s: &str) -> (r: String)
    ensures
        r@ == trimmed(s@),
{
    let n = s.unicode_len();
    let mut a: usize = 0;
    proof {
        assert(s@.skip(0) =~= s@);
    }
    while a < n && is_space(s.get_char(a))
        invariant
            a <= n,
            n == s@.len(),
            trim_front(s@) == trim_front(s@.skip(a as int)),
        decreases n - a,
    {
        proof {
            assert(s@.skip(a as int).skip(1) =~= s@.skip(a + 1));
        }
        a += 1;
    }
    proof {
        if a == n {
            assert(s@.skip(a as int) =~= Seq::<char>::empty());
        }
        assert(trim_front(s@) == s@.skip(a as int));
    }
    let mut b: usize = n;
    while b > a && is_space(s.get_char(b - 1))
        invariant
            a <= b <= n,
            n == s@.len(),
            trim_front(s@) == s@.skip(a as int),
            trim_back(s@.skip(a as int)) == trim_back(s@.subrange(a as int, b as int)),
        decreases b,
    {
        proof {
            let cur = s@.subrange(a as int, b as int);
            assert(cur[cur.len() - 1] == s@[b - 1]);
            assert(cur.take(cur.len() - 1) =~= s@.subrange(a as int, b - 1));
        }
        b -= 1;
    }
    proof {
        let cur = s@.subrange(a as int, b as int);
        if b == a {
            assert(cur.len() == 0);
        } else {
            assert(cur[cur.len() - 1] == s@[b - 1]);
        }
        assert(trim_back(cur) == cur);
        assert(s@.skip(a as int) =~= s@.subrange(a as int, n as int));
    }
    s.substring_char(a, b).to_owned()
}

/// Removes whitespace from the end of a string, as `trim_back` describes.
pub fn trim_end_str(s: &str) -> (r: String)
    ensures
        r@ == trim_back(s@),
{
    let n = s.unicode_len();
    let mut b: usize = n;
    proof {
        assert(s@.subrange(0, n as int) =~= s@);
    }
    while b > 0 && is_space(s.get_char(b - 1))
        invariant
            b <= n,
            n == s@.len(),
            trim_back(s@) == trim_back(s@.subrange(0, b as int)),
        decreases b,
    {
        proof {
            let cur = s@.subrange(0, b as int);
            assert(cur[cur.len() - 1] == s@[b - 1]);
            assert(cur.take(cur.len() - 1) =~= s@.subrange(0, b - 1));
        }
        b -= 1;
    }
    proof {
        let cur = s@.subrange(0, b as int);
        if b > 0 {
            assert(cur[cur.len() - 1] == s@[b - 1]);
        }
        assert(trim_back(cur) == cur);
        assert(s@ =~= s@.subrange(0, n as int));
    }
    s.substring_char(0, b).to_owned()
}

} // verus!

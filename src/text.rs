//! Character-level helpers shared by the renderers: splitting identifiers,
//! decimal literals, string-literal escaping, ordering, and the case
//! conversions and sorting supplied by outside crates.
use vstd::prelude::*;
use vstd::multiset::Multiset;

verus! {

/// Splits `s` at every occurrence of `sep`; always yields at least one piece.
pub open spec fn split_on(s: Seq<char>, sep: char) -> Seq<Seq<char>>
    decreases s.len(),
{
    if s.len() == 0 {
        seq![Seq::<char>::empty()]
    } else {
        let rest = split_on(s.drop_last(), sep);
        if s.last() == sep {
            rest.push(Seq::<char>::empty())
        } else {
            rest.update(rest.len() - 1, rest.last().push(s.last()))
        }
    }
}

/// A split has at least one piece.
pub proof fn lemma_split_on_nonempty(s: Seq<char>, sep: char)
    ensures
        split_on(s, sep).len() >= 1,
    decreases s.len(),
{
    if s.len() > 0 {
        lemma_split_on_nonempty(s.drop_last(), sep);
    }
}

/// Joins `parts` with `sep` between consecutive pieces.
pub open spec fn join_with(parts: Seq<Seq<char>>, sep: Seq<char>) -> Seq<char>
    decreases parts.len(),
{
    if parts.len() == 0 {
        Seq::empty()
    } else if parts.len() == 1 {
        parts[0]
    } else {
        join_with(parts.drop_last(), sep) + sep + parts.last()
    }
}

/// Concatenates `parts` with nothing between them.
pub open spec fn concat_all(parts: Seq<Seq<char>>) -> Seq<char>
    decreases parts.len(),
{
    if parts.len() == 0 {
        Seq::empty()
    } else {
        concat_all(parts.drop_last()) + parts.last()
    }
}

/// Splits a string at every occurrence of `sep`.
pub fn split_str(s: &str, sep: char) -> (r: Vec<String>)
    ensures
        r.deep_view() == split_on(s@, sep),
{
    let n = s.unicode_len();
    let mut parts: Vec<String> = Vec::new();
    let mut start: usize = 0;
    let mut i: usize = 0;
    proof {
        assert(s@.take(0) =~= Seq::<char>::empty());
        assert(s@.subrange(0, 0) =~= Seq::<char>::empty());
        assert(parts.deep_view() =~= Seq::<Seq<char>>::empty());
    }
    while i < n
        invariant
            n == s@.len(),
            start <= i <= n,
            split_on(s@.take(i as int), sep) == parts.deep_view().push(
                s@.subrange(start as int, i as int),
            ),
        decreases n - i,
    {
        let c = s.get_char(i);
        proof {
            assert(s@.take(i + 1).drop_last() == s@.take(i as int));
            assert(s@.take(i + 1).last() == c);
        }
        if c == sep {
            let piece = String::from_str(s.substring_char(start, i));
            parts.push(piece);
            start = i + 1;
            proof {
                assert(s@.subrange(start as int, i + 1) == Seq::<char>::empty());
            }
        } else {
            proof {
                assert(s@.subrange(start as int, i + 1) == s@.subrange(start as int, i as int).push(
                    c,
                ));
            }
        }
        i = i + 1;
    }
    let last = String::from_str(s.substring_char(start, n));
    parts.push(last);
    proof {
        assert(s@.take(n as int) == s@);
    }
    parts
}

/// Position of the first `sep` in `s`, if any.
pub open spec fn first_index_of(s: Seq<char>, sep: char) -> Option<int> {
    if exists|i: int| 0 <= i < s.len() && s[i] == sep {
        Some(choose|i: int| 0 <= i < s.len() && s[i] == sep && forall|j: int| 0 <= j < i ==> s[j] != sep)
    } else {
        None
    }
}

/// Finds the first occurrence of `sep` in `s`.
pub fn find_char(s: &str, sep: char) -> (r: Option<usize>)
    ensures
        match r {
            Some(i) => i < s@.len() && s@[i as int] == sep && first_index_of(s@, sep) == Some(
                i as int,
            ),
            None => first_index_of(s@, sep) is None,
        },
{
    let n = s.unicode_len();
    let mut i: usize = 0;
    while i < n
        invariant
            n == s@.len(),
            i <= n,
            forall|j: int| 0 <= j < i ==> s@[j] != sep,
        decreases n - i,
    {
        if s.get_char(i) == sep {
            proof {
                let c = choose|c: int|
                    0 <= c < s@.len() && s@[c] == sep && forall|j: int| 0 <= j < c ==> s@[j] != sep;
                assert(c == i as int) by {
                    if c < i {
                    } else if c > i {
                    }
                }
            }
            return Some(i);
        }
        i = i + 1;
    }
    None
}

/// Whether `p` is a prefix of `s`.
pub open spec fn has_prefix(s: Seq<char>, p: Seq<char>) -> bool {
    p.len() <= s.len() && s.take(p.len() as int) == p
}

/// Whether `s` starts with `p`.
pub fn starts_with(s: &str, p: &str) -> (r: bool)
    ensures
        r == has_prefix(s@, p@),
{
    let n = s.unicode_len();
    let m = p.unicode_len();
    if m > n {
        return false;
    }
    let mut i: usize = 0;
    while i < m
        invariant
            n == s@.len(),
            m == p@.len(),
            m <= n,
            i <= m,
            forall|j: int| 0 <= j < i ==> s@[j] == p@[j],
        decreases m - i,
    {
        if s.get_char(i) != p.get_char(i) {
            assert(s@.take(m as int)[i as int] != p@[i as int]);
            return false;
        }
        i = i + 1;
    }
    assert(s@.take(m as int) =~= p@);
    true
}

/// Decimal digit character for `d < 10`.
pub open spec fn digit_char(d: nat) -> char {
    if d == 0 {
        '0'
    } else if d == 1 {
        '1'
    } else if d == 2 {
        '2'
    } else if d == 3 {
        '3'
    } else if d == 4 {
        '4'
    } else if d == 5 {
        '5'
    } else if d == 6 {
        '6'
    } else if d == 7 {
        '7'
    } else if d == 8 {
        '8'
    } else {
        '9'
    }
}

/// Decimal notation of a natural number, without leading zeros.
pub open spec fn decimal(n: nat) -> Seq<char>
    decreases n,
{
    if n < 10 {
        seq![digit_char(n)]
    } else {
        decimal(n / 10).push(digit_char(n % 10))
    }
}

fn digit_str(d: u64) -> (r: &'static str)
    requires
        d < 10,
    ensures
        r@ == seq![digit_char(d as nat)],
{
    proof {
        reveal_strlit("0");
        reveal_strlit("1");
        reveal_strlit("2");
        reveal_strlit("3");
        reveal_strlit("4");
        reveal_strlit("5");
        reveal_strlit("6");
        reveal_strlit("7");
        reveal_strlit("8");
        reveal_strlit("9");
    }
    let r = if d == 0 {
        "0"
    } else if d == 1 {
        "1"
    } else if d == 2 {
        "2"
    } else if d == 3 {
        "3"
    } else if d == 4 {
        "4"
    } else if d == 5 {
        "5"
    } else if d == 6 {
        "6"
    } else if d == 7 {
        "7"
    } else if d == 8 {
        "8"
    } else {
        "9"
    };
    assert(r@ =~= seq![digit_char(d as nat)]);
    r
}

/// Writes `n` in decimal.
pub fn decimal_string(n: u64) -> (r: String)
    ensures
        r@ == decimal(n as nat),
    decreases n,
{
    if n < 10 {
        String::from_str(digit_str(n))
    } else {
        let mut s = decimal_string(n / 10);
        s.append(digit_str(n % 10));
        s
    }
}

/// The body of a double-quoted literal holding `s`: backslashes and quotes
/// are escaped, every other character is kept.
pub open spec fn escaped(s: Seq<char>) -> Seq<char>
    decreases s.len(),
{
    if s.len() == 0 {
        Seq::empty()
    } else {
        let c = s.last();
        escaped(s.drop_last()) + if c == '\\' || c == '"' {
            seq!['\\', c]
        } else {
            seq![c]
        }
    }
}

/// A double-quoted string literal holding `s`.
pub open spec fn quoted(s: Seq<char>) -> Seq<char> {
    seq!['"'] + escaped(s) + seq!['"']
}

/// Renders `s` as a double-quoted string literal.
pub fn quote_str(s: &str) -> (r: String)
    ensures
        r@ == quoted(s@),
{
    proof {
        reveal_strlit("\"");
        reveal_strlit("\\");
    }
    let n = s.unicode_len();
    let mut out = String::from_str("\"");
    let mut i: usize = 0;
    while i < n
        invariant
            n == s@.len(),
            i <= n,
            out@ == seq!['"'] + escaped(s@.take(i as int)),
        decreases n - i,
    {
        let c = s.get_char(i);
        proof {
            assert(s@.take(i + 1).drop_last() == s@.take(i as int));
            assert(s@.take(i + 1).last() == c);
        }
        let ghost before = out@;
        if c == '\\' || c == '"' {
            out.append("\\");
        }
        out.append(s.substring_char(i, i + 1));
        proof {
            reveal_strlit("\\");
            assert("\\"@ =~= seq!['\\']);
            assert(s@.subrange(i as int, i + 1) =~= seq![c]);
            if c == '\\' || c == '"' {
                assert(out@ =~= before + seq!['\\', c]);
            } else {
                assert(out@ =~= before + seq![c]);
            }
            assert(escaped(s@.take(i + 1)) == escaped(s@.take(i as int)) + if c == '\\' || c == '"' {
                seq!['\\', c]
            } else {
                seq![c]
            });
        }
        i = i + 1;
    }
    out.append("\"");
    proof {
        reveal_strlit("\"");
        assert(s@.take(n as int) == s@);
    }
    out
}

/// Lexicographic order on character sequences, by code point; this is the
/// order of `String`'s `Ord`, since UTF-8 keeps the order of code points.
pub open spec fn lex_le(a: Seq<char>, b: Seq<char>) -> bool
    decreases a.len(),
{
    if a.len() == 0 {
        true
    } else if b.len() == 0 {
        false
    } else if a[0] != b[0] {
        a[0] < b[0]
    } else {
        lex_le(a.drop_first(), b.drop_first())
    }
}

/// Every element is at most the next one.
pub open spec fn sorted_seq(s: Seq<Seq<char>>) -> bool {
    forall|i: int, j: int| 0 <= i < j < s.len() ==> lex_le(s[i], s[j])
}

/// Two sequences each at most the other are equal.
pub proof fn lemma_lex_antisymmetric(a: Seq<char>, b: Seq<char>)
    requires
        lex_le(a, b),
        lex_le(b, a),
    ensures
        a == b,
    decreases a.len(),
{
    if a.len() > 0 && b.len() > 0 {
        if a[0] == b[0] {
            lemma_lex_antisymmetric(a.drop_first(), b.drop_first());
            assert(a =~= seq![a[0]] + a.drop_first());
            assert(b =~= seq![b[0]] + b.drop_first());
        }
    } else {
        assert(a.len() == 0 && b.len() == 0);
        assert(a =~= b);
    }
}

/// Two sorted sequences that hold the same elements are the same sequence.
pub proof fn lemma_sorted_unique(a: Seq<Seq<char>>, b: Seq<Seq<char>>)
    requires
        sorted_seq(a),
        sorted_seq(b),
        a.to_multiset() == b.to_multiset(),
    ensures
        a == b,
    decreases a.len(),
{
    a.to_multiset_ensures();
    b.to_multiset_ensures();
    if a.len() == 0 {
        assert(b.len() == 0);
        assert(a =~= b);
    } else {
        assert(b.len() == a.len());
        let x = a[0];
        let y = b[0];
        assert(a.to_multiset().count(x) > 0);
        assert(b.contains(x));
        let jb = choose|j: int| 0 <= j < b.len() && b[j] == x;
        assert(lex_le(y, x)) by {
            if jb > 0 {
                assert(lex_le(b[0], b[jb]));
            } else {
                assert(y == x);
                lemma_lex_refl(x);
            }
        }
        assert(b.to_multiset().count(y) > 0);
        assert(a.contains(y));
        let ja = choose|j: int| 0 <= j < a.len() && a[j] == y;
        assert(lex_le(x, y)) by {
            if ja > 0 {
                assert(lex_le(a[0], a[ja]));
            } else {
                lemma_lex_refl(x);
            }
        }
        lemma_lex_antisymmetric(x, y);
        let a2 = a.drop_first();
        let b2 = b.drop_first();
        assert(a.remove(0) =~= a2);
        assert(b.remove(0) =~= b2);
        assert(a2.to_multiset() =~= b2.to_multiset());
        assert(sorted_seq(a2)) by {
            assert forall|i: int, j: int| 0 <= i < j < a2.len() implies lex_le(a2[i], a2[j]) by {
                assert(a2[i] == a[i + 1] && a2[j] == a[j + 1]);
            }
        }
        assert(sorted_seq(b2)) by {
            assert forall|i: int, j: int| 0 <= i < j < b2.len() implies lex_le(b2[i], b2[j]) by {
                assert(b2[i] == b[i + 1] && b2[j] == b[j + 1]);
            }
        }
        lemma_sorted_unique(a2, b2);
        assert(a =~= b) by {
            assert forall|i: int| 0 <= i < a.len() implies a[i] == b[i] by {
                if i > 0 {
                    assert(a[i] == a2[i - 1] && b[i] == b2[i - 1]);
                }
            }
        }
    }
}

/// The ascending arrangement of the strings in a multiset.
pub open spec fn sorted_of(m: Multiset<Seq<char>>) -> Seq<Seq<char>> {
    choose|s: Seq<Seq<char>>| sorted_seq(s) && s.to_multiset() == m
}

/// A sorted sequence is the ascending arrangement of its elements.
pub proof fn lemma_sorted_of(s: Seq<Seq<char>>)
    requires
        sorted_seq(s),
    ensures
        sorted_of(s.to_multiset()) == s,
{
    let t = sorted_of(s.to_multiset());
    assert(sorted_seq(t) && t.to_multiset() == s.to_multiset());
    lemma_sorted_unique(t, s);
}

/// Every sequence is at most itself.
pub proof fn lemma_lex_refl(a: Seq<char>)
    ensures
        lex_le(a, a),
    decreases a.len(),
{
    if a.len() > 0 {
        lemma_lex_refl(a.drop_first());
    }
}

/// Any two sequences are ordered one way or the other.
pub proof fn lemma_lex_total(a: Seq<char>, b: Seq<char>)
    ensures
        lex_le(a, b) || lex_le(b, a),
    decreases a.len(),
{
    if a.len() > 0 && b.len() > 0 && a[0] == b[0] {
        lemma_lex_total(a.drop_first(), b.drop_first());
    }
}

/// The order is transitive.
pub proof fn lemma_lex_trans(a: Seq<char>, b: Seq<char>, c: Seq<char>)
    requires
        lex_le(a, b),
        lex_le(b, c),
    ensures
        lex_le(a, c),
    decreases a.len(),
{
    if a.len() > 0 && b.len() > 0 && c.len() > 0 && a[0] == b[0] && b[0] == c[0] {
        lemma_lex_trans(a.drop_first(), b.drop_first(), c.drop_first());
    }
}

/// Puts `x` into a sorted sequence before the first element it is at most.
pub open spec fn insert_sorted(s: Seq<Seq<char>>, x: Seq<char>) -> Seq<Seq<char>>
    decreases s.len(),
{
    if s.len() == 0 {
        seq![x]
    } else if lex_le(x, s[0]) {
        seq![x] + s
    } else {
        seq![s[0]] + insert_sorted(s.drop_first(), x)
    }
}

/// Insertion sort.
pub open spec fn sort_seq(s: Seq<Seq<char>>) -> Seq<Seq<char>>
    decreases s.len(),
{
    if s.len() == 0 {
        Seq::empty()
    } else {
        insert_sorted(sort_seq(s.drop_last()), s.last())
    }
}

proof fn lemma_insert_sorted(s: Seq<Seq<char>>, x: Seq<char>)
    requires
        sorted_seq(s),
    ensures
        sorted_seq(insert_sorted(s, x)),
        insert_sorted(s, x).to_multiset() == s.to_multiset().insert(x),
    decreases s.len(),
{
    let r = insert_sorted(s, x);
    s.to_multiset_ensures();
    r.to_multiset_ensures();
    if s.len() == 0 {
        assert(r =~= s.push(x));
    } else if lex_le(x, s[0]) {
        assert forall|i: int, j: int| 0 <= i < j < r.len() implies lex_le(r[i], r[j]) by {
            if i == 0 {
                if j > 1 {
                    assert(lex_le(s[0], s[j - 1]));
                    lemma_lex_trans(x, s[0], s[j - 1]);
                }
            } else {
                assert(lex_le(s[i - 1], s[j - 1]));
            }
        }
        assert(r.remove(0) =~= s);
        assert(r.contains(x));
        assert(r.to_multiset().count(x) > 0);
        assert(r.to_multiset() =~= s.to_multiset().insert(x));
    } else {
        let t = s.drop_first();
        assert(sorted_seq(t)) by {
            assert forall|i: int, j: int| 0 <= i < j < t.len() implies lex_le(t[i], t[j]) by {
                assert(lex_le(s[i + 1], s[j + 1]));
            }
        }
        lemma_insert_sorted(t, x);
        let it = insert_sorted(t, x);
        lemma_lex_total(x, s[0]);
        assert forall|k: int| 0 <= k < it.len() implies lex_le(s[0], #[trigger] it[k]) by {
            it.to_multiset_ensures();
            t.to_multiset_ensures();
            assert(it.contains(it[k]));
            assert(it.to_multiset().count(it[k]) > 0);
            if it[k] != x {
                assert(t.to_multiset().count(it[k]) > 0);
                assert(t.contains(it[k]));
                let m = choose|m: int| 0 <= m < t.len() && t[m] == it[k];
                assert(lex_le(s[0], s[m + 1]));
            }
        }
        assert forall|i: int, j: int| 0 <= i < j < r.len() implies lex_le(r[i], r[j]) by {
            if i == 0 {
                assert(r[j] == it[j - 1]);
            } else {
                assert(r[i] == it[i - 1] && r[j] == it[j - 1]);
            }
        }
        assert(r.remove(0) =~= it);
        assert(s.remove(0) =~= t);
        assert(r.contains(s[0]));
        assert(r.to_multiset().count(s[0]) > 0);
        assert(s.contains(s[0]));
        assert(s.to_multiset().count(s[0]) > 0);
        assert(r.to_multiset() =~= it.to_multiset().insert(s[0]));
        assert(s.to_multiset() =~= t.to_multiset().insert(s[0]));
        assert(r.to_multiset() =~= s.to_multiset().insert(x));
    }
}

/// Insertion sort yields a sorted arrangement of the same elements.
pub proof fn lemma_sort_seq(s: Seq<Seq<char>>)
    ensures
        sorted_seq(sort_seq(s)),
        sort_seq(s).to_multiset() == s.to_multiset(),
    decreases s.len(),
{
    if s.len() == 0 {
        assert(sort_seq(s) =~= Seq::<Seq<char>>::empty());
        assert(s =~= Seq::<Seq<char>>::empty());
    } else {
        lemma_sort_seq(s.drop_last());
        lemma_insert_sorted(sort_seq(s.drop_last()), s.last());
        s.drop_last().to_multiset_ensures();
        assert(s.drop_last().push(s.last()) =~= s);
    }
}

/// The ascending arrangement of a sequence's elements is sorted and holds
/// the same elements.
pub proof fn lemma_sorted_of_seq(s: Seq<Seq<char>>)
    ensures
        sorted_seq(sorted_of(s.to_multiset())),
        sorted_of(s.to_multiset()).to_multiset() == s.to_multiset(),
{
    lemma_sort_seq(s);
}

/// A sorted sequence with each run of equal elements kept once.
pub open spec fn dedup_sorted(s: Seq<Seq<char>>) -> Seq<Seq<char>>
    decreases s.len(),
{
    if s.len() == 0 {
        Seq::empty()
    } else {
        let prev = dedup_sorted(s.drop_last());
        if s.len() > 1 && s[s.len() - 2] == s.last() {
            prev
        } else {
            prev.push(s.last())
        }
    }
}

/// The next element extends the de-duplication of a prefix, unless it
/// repeats the one before it.
pub proof fn lemma_dedup_step(sv: Seq<Seq<char>>, k: int)
    requires
        0 <= k < sv.len(),
    ensures
        dedup_sorted(sv.take(k + 1)) == if k > 0 && sv[k - 1] == sv[k] {
            dedup_sorted(sv.take(k))
        } else {
            dedup_sorted(sv.take(k)).push(sv[k])
        },
{
    assert(sv.take(k + 1).drop_last() =~= sv.take(k));
    assert(sv.take(k + 1).last() == sv[k]);
    if k > 0 {
        assert(sv.take(k + 1)[k - 1] == sv[k - 1]);
    }
}

/// Keeps one of each run of equal strings.
pub fn dedup_sorted_strings(v: &Vec<String>) -> (r: Vec<String>)
    ensures
        r.deep_view() == dedup_sorted(v.deep_view()),
{
    let ghost sv = v.deep_view();
    let mut out: Vec<String> = Vec::new();
    let mut k: usize = 0;
    assert(sv.take(0) =~= Seq::<Seq<char>>::empty());
    while k < v.len()
        invariant
            k <= v@.len(),
            sv == v.deep_view(),
            out.deep_view() == dedup_sorted(sv.take(k as int)),
        decreases v@.len() - k,
    {
        proof {
            lemma_dedup_step(sv, k as int);
            assert(sv[k as int] == v@[k as int]@);
            if k > 0 {
                assert(sv[k - 1] == v@[k - 1]@);
            }
        }
        let repeat = k > 0 && crate::schema::str_eq(v[k - 1].as_str(), v[k].as_str());
        if !repeat {
            let ghost before = out.deep_view();
            out.push(String::from_str(v[k].as_str()));
            assert(out.deep_view() =~= before.push(sv[k as int]));
        }
        k = k + 1;
    }
    assert(sv.take(k as int) =~= sv);
    out
}

/// What `heck` makes of a word in PascalCase.
pub uninterp spec fn pascal_case(s: Seq<char>) -> Seq<char>;

/// What `heck` makes of a word in snake_case.
pub uninterp spec fn snake_case(s: Seq<char>) -> Seq<char>;

/// What `heck` makes of a word in SHOUTY_SNAKE_CASE.
pub uninterp spec fn shouty_snake_case(s: Seq<char>) -> Seq<char>;

/// Whether `char::is_uppercase` holds of a character.
pub uninterp spec fn uppercase_char(c: char) -> bool;

/// Relies on heck's `ToPascalCase::to_pascal_case`, a function of the characters alone.
#[verifier::external_body]
pub(crate) fn to_pascal(s: &str) -> (r: String)
    ensures
        r@ == pascal_case(s@),
{
    heck::ToPascalCase::to_pascal_case(s)
}

/// Relies on heck's `ToSnakeCase::to_snake_case`, a function of the characters alone.
#[verifier::external_body]
pub(crate) fn to_snake(s: &str) -> (r: String)
    ensures
        r@ == snake_case(s@),
{
    heck::ToSnakeCase::to_snake_case(s)
}

/// Relies on heck's `ToShoutySnakeCase::to_shouty_snake_case`, a function of the characters alone.
#[verifier::external_body]
pub(crate) fn to_shouty_snake(s: &str) -> (r: String)
    ensures
        r@ == shouty_snake_case(s@),
{
    heck::ToShoutySnakeCase::to_shouty_snake_case(s)
}

/// Relies on `char::is_uppercase`, the Unicode `Uppercase` property; ASCII
/// letters `A` to `Z` have it and the rest of ASCII does not.
#[verifier::external_body]
fn is_uppercase(c: char) -> (r: bool)
    ensures
        r == uppercase_char(c),
        ('A' <= c && c <= 'Z') ==> r,
        ((c as u32) < 128 && !('A' <= c && c <= 'Z')) ==> !r,
{
    c.is_uppercase()
}

/// Every character is upper case (true of the empty sequence).
pub open spec fn all_uppercase(s: Seq<char>) -> bool {
    forall|i: int| 0 <= i < s.len() ==> uppercase_char(#[trigger] s[i])
}

/// Whether every character of `s` is upper case.
pub fn is_all_uppercase(s: &str) -> (r: bool)
    ensures
        r == all_uppercase(s@),
{
    let n = s.unicode_len();
    let mut i: usize = 0;
    while i < n
        invariant
            n == s@.len(),
            i <= n,
            forall|j: int| 0 <= j < i ==> uppercase_char(#[trigger] s@[j]),
        decreases n - i,
    {
        if !is_uppercase(s.get_char(i)) {
            return false;
        }
        i = i + 1;
    }
    true
}

/// Relies on itertools' `Itertools::sorted`, which sorts by `String`'s `Ord`
/// (byte order of UTF-8, the order of code points): the same strings, in
/// ascending order.
#[verifier::external_body]
pub(crate) fn sorted_strings(v: Vec<String>) -> (r: Vec<String>)
    ensures
        r.deep_view().to_multiset() == v.deep_view().to_multiset(),
        sorted_seq(r.deep_view()),
{
    itertools::Itertools::sorted(v.into_iter()).collect()
}

} // verus!

//! Operations on text: trimming, comparison and joining, each stated over
//! the characters of the text.

use vstd::prelude::*;

verus! {

/// Whether a character is white space: whether it has the Unicode
/// `White_Space` property (what `char::is_whitespace` answers), which holds
/// of these code points.
pub open spec fn spec_is_whitespace(c: char) -> bool {
    let n = c as u32;
    ||| 0x09 <= n <= 0x0d
    ||| n == 0x20
    ||| n == 0x85
    ||| n == 0xa0
    ||| n == 0x1680
    ||| 0x2000 <= n <= 0x200a
    ||| n == 0x2028
    ||| n == 0x2029
    ||| n == 0x202f
    ||| n == 0x205f
    ||| n == 0x3000
}

/// Whether a character is white space.
pub fn is_whitespace(c: char) -> (answer: bool)
    ensures
        answer == spec_is_whitespace(c),
{
    let n = c as u32;
    (0x09 <= n && n <= 0x0d) || n == 0x20 || n == 0x85 || n == 0xa0 || n == 0x1680 || (0x2000 <= n
        && n <= 0x200a) || n == 0x2028 || n == 0x2029 || n == 0x202f || n == 0x205f || n == 0x3000
}

/// Drops the characters at the front of a text while they satisfy `p`.
pub open spec fn trim_start_where(s: Seq<char>, p: spec_fn(char) -> bool) -> Seq<char>
    decreases s.len(),
{
    if s.len() > 0 && p(s[0]) {
        trim_start_where(s.drop_first(), p)
    } else {
        s
    }
}

/// Drops the characters at the back of a text while they satisfy `p`.
pub open spec fn trim_end_where(s: Seq<char>, p: spec_fn(char) -> bool) -> Seq<char>
    decreases s.len(),
{
    if s.len() > 0 && p(s.last()) {
        trim_end_where(s.drop_last(), p)
    } else {
        s
    }
}

/// The characters that a trim removes.
#[derive(Clone, Copy, Debug, PartialEq, Eq, Structural)]
pub enum TrimKind {
    /// White space, as `char::is_whitespace` decides it.
    Whitespace,
    /// The double quote `"`.
    Quote,
    /// The comma `,`.
    Comma,
}

pub open spec fn trims(kind: TrimKind) -> spec_fn(char) -> bool {
    match kind {
        TrimKind::Whitespace => |c: char| spec_is_whitespace(c),
        TrimKind::Quote => |c: char| c == '"',
        TrimKind::Comma => |c: char| c == ',',
    }
}

/// The text without white space at either end (`str::trim`).
pub open spec fn spec_trim(s: Seq<char>) -> Seq<char> {
    trim_end_where(trim_start_where(s, trims(TrimKind::Whitespace)), trims(TrimKind::Whitespace))
}

/// The text without double quotes at either end (`str::trim_matches('"')`).
pub open spec fn spec_trim_quotes(s: Seq<char>) -> Seq<char> {
    trim_end_where(trim_start_where(s, trims(TrimKind::Quote)), trims(TrimKind::Quote))
}

/// The text without commas at its end (`str::trim_end_matches(',')`).
pub open spec fn spec_trim_trailing_commas(s: Seq<char>) -> Seq<char> {
    trim_end_where(s, trims(TrimKind::Comma))
}

fn is_trimmed(c: char, kind: TrimKind) -> (answer: bool)
    ensures
        answer == trims(kind)(c),
{
    match kind {
        TrimKind::Whitespace => is_whitespace(c),
        TrimKind::Quote => c == '"',
        TrimKind::Comma => c == ',',
    }
}

/// The number of characters that the trim of the front removes.
fn leading(s: &str, n: usize, kind: TrimKind) -> (count: usize)
    requires
        n == s@.len(),
    ensures
        count <= n,
        trim_start_where(s@, trims(kind)) == s@.skip(count as int),
{
    let ghost p = trims(kind);
    let mut i: usize = 0;
    assert(s@.skip(0) =~= s@);
    while i < n && is_trimmed(s.get_char(i), kind)
        invariant
            i <= n,
            n == s@.len(),
            p == trims(kind),
            trim_start_where(s@, p) == trim_start_where(s@.skip(i as int), p),
        decreases n - i,
    {
        assert(s@.skip(i as int)[0] == s@[i as int]);
        assert(s@.skip(i as int).drop_first() =~= s@.skip(i + 1));
        i = i + 1;
    }
    if i < n {
        assert(s@.skip(i as int)[0] == s@[i as int]);
    } else {
        assert(s@.skip(i as int).len() == 0);
    }
    i
}

/// The end of what remains of `s[lo..n]` once the trim of the back has
/// removed its characters.
fn trailing_end(s: &str, lo: usize, n: usize, kind: TrimKind) -> (end: usize)
    requires
        lo <= n,
        n == s@.len(),
    ensures
        lo <= end <= n,
        trim_end_where(s@.subrange(lo as int, n as int), trims(kind)) == s@.subrange(
            lo as int,
            end as int,
        ),
{
    let ghost p = trims(kind);
    let mut j: usize = n;
    while j > lo && is_trimmed(s.get_char(j - 1), kind)
        invariant
            lo <= j <= n,
            n == s@.len(),
            p == trims(kind),
            trim_end_where(s@.subrange(lo as int, n as int), p) == trim_end_where(
                s@.subrange(lo as int, j as int),
                p,
            ),
        decreases j,
    {
        assert(s@.subrange(lo as int, j as int).last() == s@[j - 1]);
        assert(s@.subrange(lo as int, j as int).drop_last() =~= s@.subrange(lo as int, j - 1));
        j = j - 1;
    }
    if j > lo {
        assert(s@.subrange(lo as int, j as int).last() == s@[j - 1]);
    } else {
        assert(s@.subrange(lo as int, j as int).len() == 0);
    }
    j
}

/// Removes the characters of the given kind at both ends of a text.
fn trim_both(s: &str, kind: TrimKind) -> (trimmed: String)
    ensures
        trimmed@ == trim_end_where(trim_start_where(s@, trims(kind)), trims(kind)),
{
    let n = s.unicode_len();
    let lo = leading(s, n, kind);
    assert(s@.skip(lo as int) =~= s@.subrange(lo as int, n as int));
    let hi = trailing_end(s, lo, n, kind);
    s.substring_char(lo, hi).to_owned()
}

/// `str::trim`: the text without white space at either end.
pub fn trim(s: &str) -> (trimmed: String)
    ensures
        trimmed@ == spec_trim(s@),
{
    trim_both(s, TrimKind::Whitespace)
}

/// `str::trim_matches('"')`: the text without double quotes at either end.
pub fn trim_quotes(s: &str) -> (trimmed: String)
    ensures
        trimmed@ == spec_trim_quotes(s@),
{
    trim_both(s, TrimKind::Quote)
}

/// `str::trim_end_matches(',')`: the text without commas at its end.
pub fn trim_trailing_commas(s: &str) -> (trimmed: String)
    ensures
        trimmed@ == spec_trim_trailing_commas(s@),
{
    let n = s.unicode_len();
    assert(s@.subrange(0, n as int) =~= s@);
    let hi = trailing_end(s, 0, n, TrimKind::Comma);
    s.substring_char(0, hi).to_owned()
}

/// Where the trim of the front stops: every character before it satisfies
/// `p`, the one at it (if any) does not, and the rest of the text is kept.
proof fn lemma_trim_start_index(s: Seq<char>, p: spec_fn(char) -> bool) -> (a: int)
    ensures
        0 <= a <= s.len(),
        trim_start_where(s, p) == s.subrange(a, s.len() as int),
        forall|i: int| 0 <= i < a ==> #[trigger] p(s[i]),
        a < s.len() ==> !p(s[a]),
    decreases s.len(),
{
    if s.len() > 0 && p(s[0]) {
        let b = lemma_trim_start_index(s.drop_first(), p);
        assert(s.drop_first().subrange(b, s.drop_first().len() as int) =~= s.subrange(
            b + 1,
            s.len() as int,
        ));
        assert forall|i: int| 0 <= i < b + 1 implies #[trigger] p(s[i]) by {
            if i > 0 {
                assert(s[i] == s.drop_first()[i - 1]);
            }
        }
        if b + 1 < s.len() {
            assert(s[b + 1] == s.drop_first()[b]);
        }
        b + 1
    } else {
        assert(s.subrange(0, s.len() as int) =~= s);
        0
    }
}

/// Where the trim of the back stops: every character from it on satisfies
/// `p`, the one before it (if any) does not, and the text before it is kept.
proof fn lemma_trim_end_index(s: Seq<char>, p: spec_fn(char) -> bool) -> (b: int)
    ensures
        0 <= b <= s.len(),
        trim_end_where(s, p) == s.subrange(0, b),
        forall|i: int| b <= i < s.len() ==> #[trigger] p(s[i]),
        b > 0 ==> !p(s[b - 1]),
    decreases s.len(),
{
    if s.len() > 0 && p(s.last()) {
        let b = lemma_trim_end_index(s.drop_last(), p);
        assert(s.drop_last().subrange(0, b) =~= s.subrange(0, b));
        assert forall|i: int| b <= i < s.len() implies #[trigger] p(s[i]) by {
            if i < s.len() - 1 {
                assert(s[i] == s.drop_last()[i]);
            }
        }
        if b > 0 {
            assert(s[b - 1] == s.drop_last()[b - 1]);
        }
        b
    } else {
        assert(s.subrange(0, s.len() as int) =~= s);
        s.len() as int
    }
}

/// Trimming double quotes keeps one stretch of the text: what it removes
/// before and after that stretch are double quotes, and nothing else; the
/// stretch neither starts nor ends with a double quote.
pub proof fn lemma_trim_quotes_removes_only_quotes(s: Seq<char>)
    ensures
        exists|a: int, b: int|
            0 <= a <= b <= s.len() && #[trigger] s.subrange(a, b) == spec_trim_quotes(s) && (
            forall|i: int| 0 <= i < a ==> s[i] == '"') && (forall|i: int|
                b <= i < s.len() ==> s[i] == '"') && (a < b ==> s[a] != '"' && s[b - 1] != '"'),
{
    let p = trims(TrimKind::Quote);
    let a = lemma_trim_start_index(s, p);
    let rest = s.subrange(a, s.len() as int);
    let e = lemma_trim_end_index(rest, p);
    let b = a + e;
    assert(rest.subrange(0, e) =~= s.subrange(a, b));
    assert forall|i: int| 0 <= i < a implies s[i] == '"' by {
        assert(p(s[i]));
    }
    assert forall|i: int| b <= i < s.len() implies s[i] == '"' by {
        assert(s[i] == rest[i - a]);
        assert(p(rest[i - a]));
    }
    if a < b {
        assert(s[b - 1] == rest[e - 1]);
    }
    assert(s.subrange(a, b) == spec_trim_quotes(s));
}

/// A text that neither starts nor ends with a double quote is kept as it is
/// by the trim of double quotes.
pub proof fn lemma_trim_quotes_keeps_unquoted(s: Seq<char>)
    requires
        s.len() == 0 || (s[0] != '"' && s.last() != '"'),
    ensures
        spec_trim_quotes(s) == s,
{
    lemma_trim_quotes_removes_only_quotes(s);
    let (a, b) = choose|a: int, b: int|
        0 <= a <= b <= s.len() && #[trigger] s.subrange(a, b) == spec_trim_quotes(s) && (
        forall|i: int| 0 <= i < a ==> s[i] == '"') && (forall|i: int|
            b <= i < s.len() ==> s[i] == '"') && (a < b ==> s[a] != '"' && s[b - 1] != '"');
    if s.len() > 0 {
        if a > 0 {
            assert(s[0] == '"');
        }
        if b < s.len() {
            assert(s[s.len() - 1] == '"');
        }
    }
    assert(s.subrange(a, b) =~= s);
}

/// Trimming commas at the end keeps the front of the text: what it removes
/// are commas, and nothing else; what is kept does not end with a comma.
pub proof fn lemma_trim_trailing_commas_removes_only_commas(s: Seq<char>)
    ensures
        exists|b: int|
            0 <= b <= s.len() && #[trigger] s.subrange(0, b) == spec_trim_trailing_commas(s) && (
            forall|i: int| b <= i < s.len() ==> s[i] == ',') && (b > 0 ==> s[b - 1] != ','),
{
    let p = trims(TrimKind::Comma);
    let b = lemma_trim_end_index(s, p);
    assert forall|i: int| b <= i < s.len() implies s[i] == ',' by {
        assert(p(s[i]));
    }
    assert(s.subrange(0, b) == spec_trim_trailing_commas(s));
}

/// Whether two texts are the same.
pub fn same_text(a: &str, b: &str) -> (same: bool)
    ensures
        same == (a@ == b@),
{
    let n = a.unicode_len();
    let m = b.unicode_len();
    if n != m {
        return false;
    }
    let mut i: usize = 0;
    while i < n
        invariant
            i <= n,
            n == a@.len(),
            m == b@.len(),
            n == m,
            forall|k: int| 0 <= k < i ==> a@[k] == b@[k],
        decreases n - i,
    {
        if a.get_char(i) != b.get_char(i) {
            return false;
        }
        i = i + 1;
    }
    assert(a@ =~= b@);
    true
}

/// Lexicographic order of texts by character code, the order in which
/// `String`s compare (their UTF-8 encodings compare in the same order).
pub open spec fn text_less(a: Seq<char>, b: Seq<char>) -> bool
    decreases a.len(),
{
    if a.len() == 0 {
        b.len() > 0
    } else if b.len() == 0 {
        false
    } else if a[0] != b[0] {
        a[0] < b[0]
    } else {
        text_less(a.drop_first(), b.drop_first())
    }
}

/// No text is less than itself.
pub proof fn lemma_text_less_irreflexive(a: Seq<char>)
    ensures
        !text_less(a, a),
    decreases a.len(),
{
    if a.len() > 0 {
        lemma_text_less_irreflexive(a.drop_first());
    }
}

/// Of two different texts, one is less than the other.
pub proof fn lemma_text_less_total(a: Seq<char>, b: Seq<char>)
    ensures
        a != b ==> (text_less(a, b) || text_less(b, a)),
    decreases a.len(),
{
    if a.len() > 0 && b.len() > 0 && a[0] == b[0] {
        lemma_text_less_total(a.drop_first(), b.drop_first());
        if a.drop_first() == b.drop_first() {
            assert(a =~= seq![a[0]] + a.drop_first());
            assert(b =~= seq![b[0]] + b.drop_first());
        }
    } else if a.len() == 0 && b.len() == 0 {
        assert(a =~= b);
    }
}

/// The order of texts is transitive.
pub proof fn lemma_text_less_transitive(a: Seq<char>, b: Seq<char>, c: Seq<char>)
    requires
        text_less(a, b),
        text_less(b, c),
    ensures
        text_less(a, c),
    decreases a.len(),
{
    if a.len() > 0 && b.len() > 0 && c.len() > 0 && a[0] == b[0] && b[0] == c[0] {
        lemma_text_less_transitive(a.drop_first(), b.drop_first(), c.drop_first());
    }
}

/// The order of texts is asymmetric.
pub proof fn lemma_text_less_asymmetric(a: Seq<char>, b: Seq<char>)
    ensures
        !(text_less(a, b) && text_less(b, a)),
    decreases a.len(),
{
    if a.len() > 0 && b.len() > 0 && a[0] == b[0] {
        lemma_text_less_asymmetric(a.drop_first(), b.drop_first());
    }
}

/// Whether one text comes before another in lexicographic order.
pub fn less_text(a: &str, b: &str) -> (less: bool)
    ensures
        less == text_less(a@, b@),
{
    let n = a.unicode_len();
    let m = b.unicode_len();
    let mut i: usize = 0;
    assert(a@.skip(0) =~= a@);
    assert(b@.skip(0) =~= b@);
    while i < n && i < m && a.get_char(i) == b.get_char(i)
        invariant
            i <= n,
            i <= m,
            n == a@.len(),
            m == b@.len(),
            text_less(a@, b@) == text_less(a@.skip(i as int), b@.skip(i as int)),
        decreases n - i,
    {
        assert(a@.skip(i as int).drop_first() =~= a@.skip(i + 1));
        assert(b@.skip(i as int).drop_first() =~= b@.skip(i + 1));
        i = i + 1;
    }
    if i == n {
        assert(a@.skip(i as int).len() == 0);
        i < m
    } else if i == m {
        assert(b@.skip(i as int).len() == 0);
        false
    } else {
        assert(a@.skip(i as int)[0] == a@[i as int]);
        assert(b@.skip(i as int)[0] == b@[i as int]);
        a.get_char(i) < b.get_char(i)
    }
}

/// Inserts a key-value pair into a list that is ordered by key: after every
/// pair whose key is not greater, before the pairs whose keys are greater.
pub open spec fn insert_by_key(sorted: Seq<(String, String)>, pair: (String, String)) -> Seq<
    (String, String),
>
    decreases sorted.len(),
{
    if sorted.len() == 0 {
        seq![pair]
    } else if text_less(pair.0@, sorted.last().0@) {
        insert_by_key(sorted.drop_last(), pair).push(sorted.last())
    } else {
        sorted.push(pair)
    }
}

/// The stable sort of a list of key-value pairs by key: the order that
/// `slice::sort_by` with a comparison of the keys gives.
pub open spec fn sort_by_key(pairs: Seq<(String, String)>) -> Seq<(String, String)>
    decreases pairs.len(),
{
    if pairs.len() == 0 {
        pairs
    } else {
        insert_by_key(sort_by_key(pairs.drop_last()), pairs.last())
    }
}

/// Whether a list of pairs is ordered by key.
pub open spec fn keys_ordered(pairs: Seq<(String, String)>) -> bool {
    forall|i: int, j: int| 0 <= i < j < pairs.len() ==> !text_less(pairs[j].0@, pairs[i].0@)
}

/// Inserting where the keys after the position are all greater, and the
/// key before it is not, is what `insert_by_key` does.
proof fn lemma_insert_at(sorted: Seq<(String, String)>, pair: (String, String), at: int)
    requires
        0 <= at <= sorted.len(),
        at == 0 || !text_less(pair.0@, sorted[at - 1].0@),
        forall|t: int| at <= t < sorted.len() ==> text_less(pair.0@, #[trigger] sorted[t].0@),
    ensures
        insert_by_key(sorted, pair) == sorted.take(at).push(pair) + sorted.skip(at),
    decreases sorted.len(),
{
    if sorted.len() == 0 {
        assert(sorted.take(at).push(pair) + sorted.skip(at) =~= seq![pair]);
    } else if text_less(pair.0@, sorted.last().0@) {
        let rest = sorted.drop_last();
        assert(at < sorted.len());
        lemma_insert_at(rest, pair, at);
        assert(rest.take(at).push(pair) + rest.skip(at) + seq![sorted.last()] =~= sorted.take(
            at,
        ).push(pair) + sorted.skip(at));
        assert(insert_by_key(sorted, pair) == insert_by_key(rest, pair).push(sorted.last()));
        assert(insert_by_key(rest, pair).push(sorted.last()) =~= insert_by_key(rest, pair) + seq![
            sorted.last(),
        ]);
    } else {
        if at < sorted.len() {
            assert(text_less(pair.0@, sorted[sorted.len() - 1].0@));
        }
        assert(at == sorted.len());
        assert(sorted.take(at).push(pair) + sorted.skip(at) =~= sorted.push(pair));
    }
}

/// Not being greater is transitive.
proof fn lemma_not_greater_transitive(a: Seq<char>, b: Seq<char>, c: Seq<char>)
    requires
        !text_less(b, a),
        !text_less(c, b),
    ensures
        !text_less(c, a),
{
    if text_less(c, a) {
        lemma_text_less_total(a, b);
        if a == b {
        } else {
            lemma_text_less_transitive(c, a, b);
        }
    }
}

/// Inserting by key keeps a list ordered, adds the pair, and adds nothing
/// else.
proof fn lemma_insert_by_key(sorted: Seq<(String, String)>, pair: (String, String))
    requires
        keys_ordered(sorted),
    ensures
        keys_ordered(insert_by_key(sorted, pair)),
        insert_by_key(sorted, pair).to_multiset() =~= sorted.to_multiset().insert(pair),
        forall|i: int|
            0 <= i < insert_by_key(sorted, pair).len() ==> #[trigger] insert_by_key(sorted, pair)[i]
                == pair || sorted.contains(insert_by_key(sorted, pair)[i]),
    decreases sorted.len(),
{
    broadcast use vstd::seq_lib::group_to_multiset_ensures;

    let result = insert_by_key(sorted, pair);
    if sorted.len() == 0 {
        assert(result =~= seq![pair]);
        assert(seq![pair] =~= Seq::<(String, String)>::empty().push(pair));
        assert(sorted =~= Seq::<(String, String)>::empty());
    } else if text_less(pair.0@, sorted.last().0@) {
        let rest = sorted.drop_last();
        let last = sorted.last();
        assert(keys_ordered(rest));
        lemma_insert_by_key(rest, pair);
        let inner = insert_by_key(rest, pair);
        assert(result == inner.push(last));
        assert(sorted =~= rest.push(last));
        assert forall|i: int| 0 <= i < inner.len() implies !text_less(last.0@, #[trigger] inner[i].0@) by {
            if inner[i] == pair {
                lemma_text_less_asymmetric(pair.0@, last.0@);
            } else {
                assert(rest.contains(inner[i]));
                let k = choose|k: int| 0 <= k < rest.len() && rest[k] == inner[i];
                assert(sorted[k] == rest[k]);
            }
        }
        assert forall|i: int, j: int| 0 <= i < j < result.len() implies !text_less(
            result[j].0@,
            result[i].0@,
        ) by {
            if j < inner.len() {
                assert(result[i] == inner[i]);
                assert(result[j] == inner[j]);
            } else {
                assert(result[j] == last);
                assert(result[i] == inner[i]);
            }
        }
        assert forall|i: int|
            0 <= i < result.len() implies #[trigger] result[i] == pair || sorted.contains(
                result[i],
            ) by {
            if i < inner.len() {
                assert(result[i] == inner[i]);
                if inner[i] != pair {
                    assert(rest.contains(inner[i]));
                    let k = choose|k: int| 0 <= k < rest.len() && rest[k] == inner[i];
                    assert(sorted[k] == inner[i]);
                }
            } else {
                assert(result[i] == sorted[sorted.len() - 1]);
            }
        }
        assert(result.to_multiset() =~= inner.to_multiset().insert(last));
        assert(sorted.to_multiset() =~= rest.to_multiset().insert(last));
    } else {
        let last = sorted.last();
        assert(result == sorted.push(pair));
        assert forall|i: int, j: int| 0 <= i < j < result.len() implies !text_less(
            result[j].0@,
            result[i].0@,
        ) by {
            if j < sorted.len() {
                assert(result[i] == sorted[i]);
                assert(result[j] == sorted[j]);
            } else {
                assert(result[j] == pair);
                assert(result[i] == sorted[i]);
                if i < sorted.len() - 1 {
                    assert(!text_less(last.0@, sorted[i].0@));
                    lemma_not_greater_transitive(sorted[i].0@, last.0@, pair.0@);
                }
            }
        }
        assert forall|i: int|
            0 <= i < result.len() implies #[trigger] result[i] == pair || sorted.contains(
                result[i],
            ) by {
            if i < sorted.len() {
                assert(result[i] == sorted[i]);
            }
        }
    }
}

/// The stable sort by key orders the pairs by key, and holds exactly the
/// pairs it was given.
pub proof fn lemma_sort_by_key(pairs: Seq<(String, String)>)
    ensures
        keys_ordered(sort_by_key(pairs)),
        sort_by_key(pairs).to_multiset() =~= pairs.to_multiset(),
    decreases pairs.len(),
{
    broadcast use vstd::seq_lib::group_to_multiset_ensures;

    if pairs.len() > 0 {
        lemma_sort_by_key(pairs.drop_last());
        lemma_insert_by_key(sort_by_key(pairs.drop_last()), pairs.last());
        assert(pairs =~= pairs.drop_last().push(pairs.last()));
    } else {
        assert(sort_by_key(pairs) == pairs);
    }
}

/// Whether no two pairs of a list have the same key (as the entries of a
/// map).
pub open spec fn keys_unique(pairs: Seq<(String, String)>) -> bool {
    forall|i: int, j: int| 0 <= i < j < pairs.len() ==> pairs[i].0@ != pairs[j].0@
}

/// A list with the same pairs as one whose keys are unique has unique keys.
proof fn lemma_keys_unique_permutation(a: Seq<(String, String)>, b: Seq<(String, String)>)
    requires
        keys_unique(a),
        a.to_multiset() =~= b.to_multiset(),
    ensures
        keys_unique(b),
        b.no_duplicates(),
{
    broadcast use vstd::seq_lib::group_to_multiset_ensures;

    assert(a.no_duplicates()) by {
        assert forall|i: int, j: int| 0 <= i < a.len() && 0 <= j < a.len() && i != j implies a[i]
            != a[j] by {
            if i < j {
                assert(a[i].0@ != a[j].0@);
            } else {
                assert(a[j].0@ != a[i].0@);
            }
        }
    }
    a.lemma_multiset_has_no_duplicates();
    b.lemma_multiset_has_no_duplicates_conv();
    assert forall|i: int, j: int| 0 <= i < j < b.len() implies b[i].0@ != b[j].0@ by {
        assert(b.contains(b[i]));
        assert(b.contains(b[j]));
        assert(b.to_multiset().count(b[i]) > 0);
        assert(b.to_multiset().count(b[j]) > 0);
        assert(a.to_multiset().count(b[i]) > 0);
        assert(a.to_multiset().count(b[j]) > 0);
        assert(a.contains(b[i]));
        assert(a.contains(b[j]));
        let p = choose|p: int| 0 <= p < a.len() && a[p] == b[i];
        let q = choose|q: int| 0 <= q < a.len() && a[q] == b[j];
        assert(b[i] != b[j]);
        if p < q {
            assert(a[p].0@ != a[q].0@);
        } else if q < p {
            assert(a[q].0@ != a[p].0@);
        }
    }
}

/// Two lists ordered by key, with unique keys and the same pairs, are the
/// same list.
proof fn lemma_ordered_unique(s: Seq<(String, String)>, t: Seq<(String, String)>)
    requires
        keys_ordered(s),
        keys_ordered(t),
        keys_unique(s),
        keys_unique(t),
        s.to_multiset() =~= t.to_multiset(),
    ensures
        s == t,
    decreases s.len(),
{
    broadcast use vstd::seq_lib::group_to_multiset_ensures;

    assert(s.len() == s.to_multiset().len());
    assert(t.len() == t.to_multiset().len());
    assert(s.len() == t.len());
    if s.len() == 0 {
        assert(s =~= t);
    } else {
        let x = s[0];
        let y = t[0];
        assert(s.contains(x));
        assert(s.to_multiset().count(x) > 0);
        assert(t.to_multiset().count(x) > 0);
        assert(t.contains(x));
        assert(t.contains(y));
        assert(t.to_multiset().count(y) > 0);
        assert(s.to_multiset().count(y) > 0);
        assert(s.contains(y));
        let k = choose|k: int| 0 <= k < t.len() && t[k] == x;
        let m = choose|m: int| 0 <= m < s.len() && s[m] == y;
        if k > 0 {
            assert(y.0@ != x.0@);
            assert(!text_less(x.0@, y.0@));
            lemma_text_less_total(x.0@, y.0@);
            if m > 0 {
                assert(x.0@ != y.0@);
                assert(!text_less(y.0@, x.0@));
            }
        }
        assert(x == y);
        let s1 = s.drop_first();
        let t1 = t.drop_first();
        assert(s.remove(0) =~= s1);
        assert(t.remove(0) =~= t1);
        assert(s1.to_multiset() =~= t1.to_multiset());
        lemma_ordered_unique(s1, t1);
        assert(s =~= seq![x] + s1);
        assert(t =~= seq![y] + t1);
    }
}

/// The order of labels given with unique keys does not matter: any two
/// lists of the same pairs sort to the same list.
pub proof fn lemma_sort_ignores_order(a: Seq<(String, String)>, b: Seq<(String, String)>)
    requires
        keys_unique(a),
        a.to_multiset() =~= b.to_multiset(),
    ensures
        sort_by_key(a) == sort_by_key(b),
{
    lemma_sort_by_key(a);
    lemma_sort_by_key(b);
    lemma_keys_unique_permutation(a, sort_by_key(a));
    lemma_keys_unique_permutation(a, sort_by_key(b));
    lemma_ordered_unique(sort_by_key(a), sort_by_key(b));
}

/// Sorts key-value pairs by key, keeping the order of pairs whose keys are
/// equal (`slice::sort_by` with `a.0.cmp(&b.0)`).
pub fn sort_pairs_by_key(pairs: Vec<(String, String)>) -> (sorted: Vec<(String, String)>)
    ensures
        sorted@ == sort_by_key(pairs@),
{
    let ghost all = pairs@;
    let mut rest = pairs;
    let mut sorted: Vec<(String, String)> = Vec::new();
    let ghost mut done: int = 0;
    assert(all.take(0) =~= Seq::<(String, String)>::empty());
    assert(all.skip(0) =~= all);
    while rest.len() > 0
        invariant
            0 <= done <= all.len(),
            rest@ == all.skip(done),
            sorted@ == sort_by_key(all.take(done)),
        decreases rest.len(),
    {
        let pair = rest.remove(0);
        assert(pair == all[done]);
        let mut at = sorted.len();
        while at > 0 && less_text(pair.0.as_str(), sorted[at - 1].0.as_str())
            invariant
                at <= sorted.len(),
                forall|t: int|
                    at <= t < sorted.len() ==> text_less(pair.0@, #[trigger] sorted@[t].0@),
            decreases at,
        {
            at = at - 1;
        }
        proof {
            lemma_insert_at(sorted@, pair, at as int);
            assert(all.take(done + 1).drop_last() =~= all.take(done));
            assert(all.take(done + 1).last() == pair);
            assert(all.skip(done).drop_first() =~= all.skip(done + 1));
        }
        let ghost before = sorted@;
        sorted.insert(at, pair);
        assert(sorted@ =~= before.take(at as int).push(pair) + before.skip(at as int));
        proof {
            done = done + 1;
        }
    }
    assert(all.take(done) =~= all);
    sorted
}

/// The parts written one after the other with `sep` between each two.
pub open spec fn join(parts: Seq<Seq<char>>, sep: Seq<char>) -> Seq<char>
    decreases parts.len(),
{
    if parts.len() == 0 {
        seq![]
    } else if parts.len() == 1 {
        parts[0]
    } else {
        join(parts.drop_last(), sep) + sep + parts.last()
    }
}

/// The characters of each text of a list.
pub open spec fn texts(strings: Seq<String>) -> Seq<Seq<char>> {
    strings.map_values(|s: String| s@)
}

/// Joins texts with a separator (`slice::join`).
pub fn join_texts(parts: &Vec<String>, sep: &str) -> (joined: String)
    ensures
        joined@ == join(texts(parts@), sep@),
{
    let mut joined = String::new();
    let n = parts.len();
    let mut i: usize = 0;
    assert(texts(parts@).take(0) =~= Seq::<Seq<char>>::empty());
    while i < n
        invariant
            i <= n,
            n == parts@.len(),
            joined@ == join(texts(parts@).take(i as int), sep@),
        decreases n - i,
    {
        assert(texts(parts@).take(i + 1).drop_last() =~= texts(parts@).take(i as int));
        assert(texts(parts@).take(i + 1).last() == parts@[i as int]@);
        if i > 0 {
            joined.append(sep);
        } else {
            assert(joined@ =~= Seq::<char>::empty());
        }
        joined.append(parts[i].as_str());
        i = i + 1;
    }
    assert(texts(parts@).take(n as int) =~= texts(parts@));
    joined
}

} // verus!

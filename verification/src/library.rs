use vstd::prelude::*;

verus! {

/// What the library page reads of a game in the ROM library.
pub struct LibraryRow {
    pub title: String,
    pub file_name: String,
    /// When the game was last played, in seconds since the Unix epoch; 0 for never.
    pub last_played: u64,
}

/// How the library page orders the games.
#[derive(Debug, Clone, Copy, PartialEq, Eq, Structural)]
pub enum LibrarySort {
    /// By title, ignoring case.
    Title,
    /// Most recently played first.
    Recent,
}

/// What `str::to_lowercase` gives for `s` (Unicode lower case).
pub uninterp spec fn lowercase_of(s: Seq<char>) -> Seq<char>;

/// Lower-cases `s` with `str::to_lowercase`. Claims that the result is
/// `lowercase_of(s)`; the Unicode case tables themselves are not stated.
#[verifier::external_body]
fn lowercase(s: &str) -> (lower: String)
    ensures
        lower@ == lowercase_of(s@),
{
    s.to_lowercase()
}

/// Whether `needle` occurs in `hay` starting at `at`.
pub open spec fn occurs_at(hay: Seq<char>, needle: Seq<char>, at: int) -> bool {
    0 <= at && at + needle.len() <= hay.len() && forall|j: int| 0 <= j < needle.len() ==> hay[at + j] == needle[j]
}

/// Whether `needle` occurs somewhere in `hay`.
pub open spec fn text_contains(hay: Seq<char>, needle: Seq<char>) -> bool {
    exists|at: int| #[trigger] occurs_at(hay, needle, at)
}

/// Whether `a` comes before `b` in the order of `String`: character by
/// character, a proper prefix first.
pub open spec fn text_before(a: Seq<char>, b: Seq<char>) -> bool
    decreases a.len(),
{
    if b.len() == 0 {
        false
    } else if a.len() == 0 {
        true
    } else if a[0] != b[0] {
        a[0] < b[0]
    } else {
        text_before(a.drop_first(), b.drop_first())
    }
}

/// Whether the game matches the lower-cased search text: every game matches an
/// empty search, otherwise its lower-cased title or file name must contain it.
pub open spec fn library_match(row: LibraryRow, query: Seq<char>) -> bool {
    query.len() == 0 || text_contains(lowercase_of(row.title@), query) || text_contains(
        lowercase_of(row.file_name@),
        query,
    )
}

/// Whether game `i` is listed before game `j` under `sort`; games that tie keep
/// their library order.
pub open spec fn listed_before(rows: Seq<LibraryRow>, sort: LibrarySort, i: int, j: int) -> bool {
    match sort {
        LibrarySort::Title => {
            let a = lowercase_of(rows[i].title@);
            let b = lowercase_of(rows[j].title@);
            text_before(a, b) || (!text_before(b, a) && i < j)
        },
        LibrarySort::Recent => rows[i].last_played > rows[j].last_played || (rows[i].last_played
            == rows[j].last_played && i < j),
    }
}

/// Law: `text_before` is a strict total order.
pub proof fn lemma_text_before_total(a: Seq<char>, b: Seq<char>)
    ensures
        !text_before(a, a),
        !(text_before(a, b) && text_before(b, a)),
        a == b || text_before(a, b) || text_before(b, a),
    decreases a.len(),
{
    if a.len() > 0 && b.len() > 0 {
        lemma_text_before_total(a.drop_first(), b.drop_first());
        lemma_text_before_total(a.drop_first(), a.drop_first());
        if a[0] == b[0] && a.drop_first() == b.drop_first() {
            assert forall|t: int| 0 <= t < a.len() implies a[t] == b[t] by {
                if t > 0 {
                    assert(a[t] == a.drop_first()[t - 1]);
                    assert(b[t] == b.drop_first()[t - 1]);
                }
            }
            assert(a =~= b);
        }
    } else if a.len() > 0 {
        lemma_text_before_total(a.drop_first(), a.drop_first());
    } else if b.len() == 0 {
        assert(a =~= b);
    }
}

/// Law: `text_before` is transitive.
pub proof fn lemma_text_before_transitive(a: Seq<char>, b: Seq<char>, c: Seq<char>)
    requires
        text_before(a, b),
        text_before(b, c),
    ensures
        text_before(a, c),
    decreases a.len(),
{
    if a.len() > 0 && a[0] == b[0] && b[0] == c[0] {
        lemma_text_before_transitive(a.drop_first(), b.drop_first(), c.drop_first());
    }
}

/// Law: the library order is a strict total order on the games.
pub proof fn lemma_listed_before_order(rows: Seq<LibraryRow>, sort: LibrarySort, i: int, j: int, k: int)
    ensures
        !listed_before(rows, sort, i, i),
        i != j ==> (listed_before(rows, sort, i, j) <==> !listed_before(rows, sort, j, i)),
        listed_before(rows, sort, i, j) && listed_before(rows, sort, j, k) ==> listed_before(rows, sort, i, k),
{
    let a = lowercase_of(rows[i].title@);
    let b = lowercase_of(rows[j].title@);
    let c = lowercase_of(rows[k].title@);
    lemma_text_before_total(a, b);
    lemma_text_before_total(b, c);
    lemma_text_before_total(a, c);
    if text_before(a, b) && text_before(b, c) {
        lemma_text_before_transitive(a, b, c);
    }
}

fn text_less(a: &str, b: &str) -> (less: bool)
    ensures
        less == text_before(a@, b@),
{
    let n = a.unicode_len();
    let m = b.unicode_len();
    let mut k: usize = 0;
    proof {
        assert(a@.skip(0) =~= a@);
        assert(b@.skip(0) =~= b@);
    }
    loop
        invariant
            n == a@.len(),
            m == b@.len(),
            k <= n,
            k <= m,
            text_before(a@, b@) == text_before(a@.skip(k as int), b@.skip(k as int)),
        decreases n - k,
    {
        if k == m {
            return false;
        }
        if k == n {
            return true;
        }
        let x = a.get_char(k);
        let y = b.get_char(k);
        if x != y {
            return x < y;
        }
        proof {
            assert(a@.skip(k as int).drop_first() =~= a@.skip(k + 1));
            assert(b@.skip(k as int).drop_first() =~= b@.skip(k + 1));
        }
        k += 1;
    }
}

fn contains_text(hay: &str, needle: &str) -> (found: bool)
    ensures
        found == text_contains(hay@, needle@),
{
    let h = hay.unicode_len();
    let n = needle.unicode_len();
    if n > h {
        assert forall|at: int| !#[trigger] occurs_at(hay@, needle@, at) by {}
        return false;
    }
    let mut at: usize = 0;
    while at <= h - n
        invariant
            h == hay@.len(),
            n == needle@.len(),
            n <= h,
            at <= h - n + 1,
            forall|s: int| 0 <= s < at ==> !#[trigger] occurs_at(hay@, needle@, s),
        decreases h - n + 1 - at,
    {
        let mut j: usize = 0;
        let mut same = true;
        while j < n
            invariant
                h == hay@.len(),
                n == needle@.len(),
                at + n <= h,
                j <= n,
                same == forall|t: int| 0 <= t < j ==> hay@[at + t] == needle@[t],
            decreases n - j,
        {
            if hay.get_char(at + j) != needle.get_char(j) {
                same = false;
            }
            j += 1;
        }
        if same {
            assert(occurs_at(hay@, needle@, at as int));
            return true;
        }
        at += 1;
    }
    assert forall|s: int| !#[trigger] occurs_at(hay@, needle@, s) by {
        if 0 <= s && s < at {
        }
    }
    false
}

fn goes_before(rows: &Vec<LibraryRow>, keys: &Vec<String>, sort: LibrarySort, i: usize, j: usize) -> (before: bool)
    requires
        i < keys@.len(),
        j < keys@.len(),
        keys@.len() <= rows@.len(),
        forall|t: int| 0 <= t < keys@.len() ==> #[trigger] keys@[t]@ == lowercase_of(rows@[t].title@),
    ensures
        before == listed_before(rows@, sort, i as int, j as int),
{
    match sort {
        LibrarySort::Title => {
            let a = keys[i].as_str();
            let b = keys[j].as_str();
            text_less(a, b) || (!text_less(b, a) && i < j)
        },
        LibrarySort::Recent => rows[i].last_played > rows[j].last_played || (rows[i].last_played
            == rows[j].last_played && i < j),
    }
}

/// Whether `shown` lists exactly the games of `rows` that match `query`, once
/// each, in the order of `sort`.
pub open spec fn library_listing(rows: Seq<LibraryRow>, query: Seq<char>, sort: LibrarySort, shown: Seq<usize>) -> bool {
    &&& forall|a: int| 0 <= a < shown.len() ==> #[trigger] shown[a] < rows.len() && library_match(rows[shown[a] as int], query)
    &&& forall|i: int| 0 <= i < rows.len() && library_match(rows[i], query) ==> #[trigger] shown.contains(i as usize)
    &&& forall|a: int, b: int| 0 <= a < b < shown.len() ==> listed_before(rows, sort, #[trigger] shown[a] as int, #[trigger] shown[b] as int)
}

/// The games that the library page lists for the search text `query`, as
/// indices into `rows`, in the order that `sort` asks for.
pub fn library_view(rows: &Vec<LibraryRow>, query: &str, sort: LibrarySort) -> (shown: Vec<usize>)
    ensures
        library_listing(rows@, lowercase_of(query@), sort, shown@),
{
    let q = lowercase(query);
    let mut keys: Vec<String> = Vec::new();
    let mut shown: Vec<usize> = Vec::new();
    let mut i: usize = 0;
    while i < rows.len()
        invariant
            i <= rows@.len(),
            q@ == lowercase_of(query@),
            keys@.len() == i,
            forall|t: int| 0 <= t < i ==> #[trigger] keys@[t]@ == lowercase_of(rows@[t].title@),
            forall|a: int| 0 <= a < shown@.len() ==> #[trigger] shown@[a] < i && library_match(rows@[shown@[a] as int], q@),
            forall|t: int| 0 <= t < i && library_match(rows@[t], q@) ==> #[trigger] shown@.contains(t as usize),
            forall|a: int, b: int| 0 <= a < b < shown@.len() ==> listed_before(rows@, sort, #[trigger] shown@[a] as int, #[trigger] shown@[b] as int),
        decreases rows@.len() - i,
    {
        let title = lowercase(rows[i].title.as_str());
        let file = lowercase(rows[i].file_name.as_str());
        keys.push(title);
        let wanted = q.unicode_len() == 0 || contains_text(keys[i].as_str(), q.as_str()) || contains_text(file.as_str(), q.as_str());
        if wanted {
            let mut p: usize = 0;
            while p < shown.len() && !goes_before(rows, &keys, sort, i, shown[p])
                invariant
                    i < rows@.len(),
                    keys@.len() == i + 1,
                    forall|t: int| 0 <= t <= i ==> #[trigger] keys@[t]@ == lowercase_of(rows@[t].title@),
                    p <= shown@.len(),
                    forall|a: int| 0 <= a < shown@.len() ==> #[trigger] shown@[a] < i,
                    forall|a: int| 0 <= a < p ==> !listed_before(rows@, sort, i as int, #[trigger] shown@[a] as int),
                decreases shown@.len() - p,
            {
                p += 1;
            }
            let ghost before = shown@;
            proof {
                assert forall|a: int| 0 <= a < p implies listed_before(rows@, sort, #[trigger] before[a] as int, i as int) by {
                    lemma_listed_before_order(rows@, sort, i as int, before[a] as int, i as int);
                }
                if p < before.len() {
                    assert forall|a: int| p <= a < before.len() implies listed_before(rows@, sort, i as int, #[trigger] before[a] as int) by {
                        if a > p {
                            lemma_listed_before_order(rows@, sort, i as int, before[p as int] as int, before[a] as int);
                        }
                    }
                }
            }
            shown.insert(p, i);
            proof {
                assert forall|a: int, b: int| 0 <= a < b < shown@.len() implies listed_before(rows@, sort, #[trigger] shown@[a] as int, #[trigger] shown@[b] as int) by {
                    if b < p {
                        assert(shown@[a] == before[a] && shown@[b] == before[b]);
                    } else if b == p {
                        assert(shown@[a] == before[a]);
                    } else if a < p {
                        assert(shown@[a] == before[a] && shown@[b] == before[b - 1]);
                    } else if a == p {
                        assert(shown@[b] == before[b - 1]);
                    } else {
                        assert(shown@[a] == before[a - 1] && shown@[b] == before[b - 1]);
                    }
                }
                assert forall|a: int| 0 <= a < shown@.len() implies #[trigger] shown@[a] < i + 1 && library_match(rows@[shown@[a] as int], q@) by {
                    if a < p {
                        assert(shown@[a] == before[a]);
                    } else if a > p {
                        assert(shown@[a] == before[a - 1]);
                    }
                }
                assert forall|t: int| 0 <= t < i + 1 && library_match(rows@[t], q@) implies #[trigger] shown@.contains(t as usize) by {
                    if t == i {
                        assert(shown@[p as int] == i);
                    } else {
                        assert(before.contains(t as usize));
                        let a = choose|a: int| 0 <= a < before.len() && before[a] == t as usize;
                        if a < p {
                            assert(shown@[a] == before[a]);
                        } else {
                            assert(shown@[a + 1] == before[a]);
                        }
                    }
                }
            }
        } else {
            proof {
                assert forall|t: int| 0 <= t < i + 1 && library_match(rows@[t], q@) implies #[trigger] shown@.contains(t as usize) by {
                    if t == i {
                        assert(!library_match(rows@[t], q@));
                    }
                }
            }
        }
        i += 1;
    }
    shown
}

} // verus!

//! Repository over the country table, the one entity keyed by a
//! natural string key instead of a serial integer.
//!
//! Rows are held ascending by the lexicographic order of the key's
//! UTF-8 bytes, which agrees with code-point order. Creation inserts at
//! the sorted position and refuses a duplicate key the way the storage
//! layer's uniqueness constraint would; an update may move a row to a
//! new key and refuses a key already taken by another row.

use vstd::prelude::*;
use vstd::string::StringSliceAdditionalSpecFns;

use crate::error::RepoError;
use crate::model::Country;

verus! {

/// Strict lexicographic order on byte strings.
pub open spec fn bytes_lt(a: Seq<u8>, b: Seq<u8>) -> bool
    decreases a.len(),
{
    if b.len() == 0 {
        false
    } else if a.len() == 0 {
        true
    } else if a[0] < b[0] {
        true
    } else if b[0] < a[0] {
        false
    } else {
        bytes_lt(a.drop_first(), b.drop_first())
    }
}

/// No byte string is below itself.
pub proof fn lemma_bytes_lt_irrefl(a: Seq<u8>)
    ensures
        !bytes_lt(a, a),
    decreases a.len(),
{
    if a.len() > 0 {
        lemma_bytes_lt_irrefl(a.drop_first());
    }
}

/// The lexicographic order is transitive.
pub proof fn lemma_bytes_lt_trans(a: Seq<u8>, b: Seq<u8>, c: Seq<u8>)
    requires
        bytes_lt(a, b),
        bytes_lt(b, c),
    ensures
        bytes_lt(a, c),
    decreases a.len(),
{
    if a.len() > 0 && b.len() > 0 && c.len() > 0 {
        if a[0] == b[0] && b[0] == c[0] {
            lemma_bytes_lt_trans(a.drop_first(), b.drop_first(), c.drop_first());
        }
    }
}

/// The lexicographic order runs one way only.
pub proof fn lemma_bytes_lt_asym(a: Seq<u8>, b: Seq<u8>)
    requires
        bytes_lt(a, b),
    ensures
        !bytes_lt(b, a),
{
    if bytes_lt(b, a) {
        lemma_bytes_lt_trans(a, b, a);
        lemma_bytes_lt_irrefl(a);
    }
}

/// The UTF-8 bytes of a country's key.
pub open spec fn code_bytes(c: Country) -> Seq<u8> {
    vstd::utf8::encode_utf8(c.code@)
}

/// Whether some row of `rows` carries the key whose bytes are `code`.
pub open spec fn contains_code(rows: Seq<Country>, code: Seq<u8>) -> bool {
    exists|i: int| 0 <= i < rows.len() && (#[trigger] code_bytes(rows[i])) == code
}

/// Index of the first row of `rows` carrying `code`.
pub open spec fn code_index(rows: Seq<Country>, code: Seq<u8>) -> int
    decreases rows.len(),
{
    if rows.len() == 0 {
        0
    } else if code_bytes(rows[0]) == code {
        0
    } else {
        1 + code_index(rows.drop_first(), code)
    }
}

/// The first row of `rows` carrying `code`.
pub open spec fn row_at_code(rows: Seq<Country>, code: Seq<u8>) -> Country {
    rows[code_index(rows, code)]
}

/// Keys grow strictly with row position, so no two rows share a key.
pub open spec fn codes_ascending(rows: Seq<Country>) -> bool {
    forall|i: int, j: int|
        0 <= i < j < rows.len() ==> bytes_lt(
            #[trigger] code_bytes(rows[i]),
            #[trigger] code_bytes(rows[j]),
        )
}

/// A listing with ascending codes never holds two rows that share a
/// code.
pub proof fn lemma_ascending_codes_distinct(rows: Seq<Country>)
    requires
        codes_ascending(rows),
    ensures
        forall|i: int, j: int|
            0 <= i < j < rows.len() ==> (#[trigger] code_bytes(rows[i])) != (#[trigger] code_bytes(
                rows[j],
            )),
{
    assert forall|i: int, j: int| 0 <= i < j < rows.len() implies (#[trigger] code_bytes(rows[i]))
        != (#[trigger] code_bytes(rows[j])) by {
        lemma_bytes_lt_irrefl(code_bytes(rows[i]));
    }
}

/// The position where a row keyed `code` belongs: the first position
/// whose key is not below `code`.
pub open spec fn code_insert_pos(rows: Seq<Country>, code: Seq<u8>) -> int
    decreases rows.len(),
{
    if rows.len() == 0 {
        0
    } else if !bytes_lt(code_bytes(rows[0]), code) {
        0
    } else {
        1 + code_insert_pos(rows.drop_first(), code)
    }
}

/// A position whose predecessors are all below `code` and which is not
/// is exactly where `code_insert_pos` points.
proof fn lemma_code_insert_pos_at(rows: Seq<Country>, code: Seq<u8>, i: int)
    requires
        0 <= i <= rows.len(),
        forall|j: int| 0 <= j < i ==> bytes_lt(#[trigger] code_bytes(rows[j]), code),
        i < rows.len() ==> !bytes_lt(code_bytes(rows[i]), code),
    ensures
        code_insert_pos(rows, code) == i,
    decreases i,
{
    if i > 0 {
        assert(bytes_lt(code_bytes(rows[0]), code));
        assert forall|j: int| 0 <= j < i - 1 implies bytes_lt(
            #[trigger] code_bytes(rows.drop_first()[j]),
            code,
        ) by {
            assert(bytes_lt(code_bytes(rows[j + 1]), code));
        }
        assert(i - 1 < rows.drop_first().len() ==> rows.drop_first()[i - 1] == rows[i]);
        lemma_code_insert_pos_at(rows.drop_first(), code, i - 1);
    }
}

/// A position whose predecessors all miss `code` and which carries it
/// is exactly where `code_index` points.
proof fn lemma_code_index_at(rows: Seq<Country>, code: Seq<u8>, i: int)
    requires
        0 <= i < rows.len(),
        code_bytes(rows[i]) == code,
        forall|j: int| 0 <= j < i ==> (#[trigger] code_bytes(rows[j])) != code,
    ensures
        contains_code(rows, code),
        code_index(rows, code) == i,
        row_at_code(rows, code) == rows[i],
    decreases i,
{
    assert(contains_code(rows, code));
    if i > 0 {
        assert forall|j: int| 0 <= j < i - 1 implies (#[trigger] code_bytes(rows.drop_first()[j]))
            != code by {
            assert(code_bytes(rows[j + 1]) != code);
        }
        assert(code_bytes(rows.drop_first()[i - 1]) == code);
        lemma_code_index_at(rows.drop_first(), code, i - 1);
    }
}

/// Three-way comparison result of two byte strings.
enum Cmp {
    Less,
    Equal,
    Greater,
}

/// Two byte strings that agree before `i` and differ at `i` are ordered
/// by the byte at `i`.
proof fn lemma_bytes_lt_from_head(a: Seq<u8>, b: Seq<u8>, i: int)
    requires
        0 <= i < a.len(),
        i < b.len(),
        forall|j: int| 0 <= j < i ==> a[j] == b[j],
        a[i] < b[i],
    ensures
        bytes_lt(a, b),
    decreases i,
{
    if i > 0 {
        lemma_bytes_lt_from_head(a.drop_first(), b.drop_first(), i - 1);
    }
}

/// A strict prefix is below the longer byte string.
proof fn lemma_bytes_lt_prefix(a: Seq<u8>, b: Seq<u8>)
    requires
        a.len() < b.len(),
        forall|j: int| 0 <= j < a.len() ==> a[j] == b[j],
    ensures
        bytes_lt(a, b),
    decreases a.len(),
{
    if a.len() > 0 {
        lemma_bytes_lt_prefix(a.drop_first(), b.drop_first());
    }
}

/// Compares two byte strings lexicographically.
#[verifier::loop_isolation(false)]
fn bytes_cmp(a: &[u8], b: &[u8]) -> (c: Cmp)
    ensures
        match c {
            Cmp::Less => bytes_lt(a@, b@),
            Cmp::Equal => a@ == b@,
            Cmp::Greater => bytes_lt(b@, a@),
        },
{
    let na = a.len();
    let nb = b.len();
    let n = if na < nb {
        na
    } else {
        nb
    };
    let mut i: usize = 0;
    while i < n
        invariant
            i <= n,
            n <= na,
            n <= nb,
            forall|j: int| 0 <= j < i as int ==> a@[j] == b@[j],
        decreases n - i,
    {
        let x = a[i];
        let y = b[i];
        if x < y {
            proof {
                lemma_bytes_lt_from_head(a@, b@, i as int);
            }
            return Cmp::Less;
        }
        if y < x {
            proof {
                lemma_bytes_lt_from_head(b@, a@, i as int);
            }
            return Cmp::Greater;
        }
        i = i + 1;
    }
    if na < nb {
        proof {
            lemma_bytes_lt_prefix(a@, b@);
        }
        Cmp::Less
    } else if nb < na {
        proof {
            lemma_bytes_lt_prefix(b@, a@);
        }
        Cmp::Greater
    } else {
        proof {
            assert(a@ =~= b@);
        }
        Cmp::Equal
    }
}

/// The country table, held ascending by key.
pub struct CountryTable {
    rows: Vec<Country>,
}

impl View for CountryTable {
    type V = Seq<Country>;

    closed spec fn view(&self) -> Seq<Country> {
        self.rows@
    }
}

impl CountryTable {
    /// Rows ascend by the lexicographic order of their key bytes.
    pub open spec fn wf(self) -> bool {
        codes_ascending(self@)
    }

    /// An empty table.
    pub fn new() -> (t: Self)
        ensures
            t.wf(),
            t@ =~= Seq::<Country>::empty(),
    {
        CountryTable { rows: Vec::new() }
    }

    /// All rows, ascending by key.
    pub fn list(&self) -> (r: &Vec<Country>)
        ensures
            r@ == self@,
    {
        &self.rows
    }

    /// Where the scan for `code` stops: the first position whose key is
    /// not below `code`, and whether that position carries `code`.
    #[verifier::loop_isolation(false)]
    fn scan_code(&self, code: &str) -> (r: (usize, bool))
        requires
            self.wf(),
        ensures
            r.0 as int == code_insert_pos(self@, code.spec_bytes()),
            r.0 as int <= self@.len(),
            forall|j: int|
                0 <= j < r.0 as int ==> bytes_lt(#[trigger] code_bytes(self@[j]), code.spec_bytes()),
            r.1 <==> contains_code(self@, code.spec_bytes()),
            r.1 ==> (r.0 as int) < self@.len() && code_index(self@, code.spec_bytes()) == r.0 as int
                && code_bytes(self@[r.0 as int]) == code.spec_bytes(),
            !r.1 && (r.0 as int) < self@.len() ==> bytes_lt(
                code.spec_bytes(),
                code_bytes(self@[r.0 as int]),
            ),
    {
        let cb = code.as_bytes();
        let n = self.rows.len();
        let mut i: usize = 0;
        while i < n
            invariant
                i <= n,
                forall|j: int|
                    0 <= j < i as int ==> bytes_lt(
                        #[trigger] code_bytes(self@[j]),
                        code.spec_bytes(),
                    ),
            decreases n - i,
        {
            match bytes_cmp(self.rows[i].code.as_str().as_bytes(), cb) {
                Cmp::Less => {
                    i = i + 1;
                },
                Cmp::Equal => {
                    proof {
                        lemma_bytes_lt_irrefl(code.spec_bytes());
                        assert(code_bytes(self@[i as int]) == code.spec_bytes());
                        lemma_code_insert_pos_at(self@, code.spec_bytes(), i as int);
                        assert forall|j: int| 0 <= j < i as int implies (#[trigger] code_bytes(
                            self@[j],
                        )) != code.spec_bytes() by {
                            lemma_bytes_lt_irrefl(code.spec_bytes());
                        }
                        lemma_code_index_at(self@, code.spec_bytes(), i as int);
                    }
                    return (i, true);
                },
                Cmp::Greater => {
                    proof {
                        lemma_bytes_lt_asym(code.spec_bytes(), code_bytes(self@[i as int]));
                        lemma_code_insert_pos_at(self@, code.spec_bytes(), i as int);
                        lemma_bytes_lt_irrefl(code.spec_bytes());
                        assert forall|p: int| 0 <= p < self@.len() implies (#[trigger] code_bytes(
                            self@[p],
                        )) != code.spec_bytes() by {
                            if p > i as int {
                                lemma_bytes_lt_trans(
                                    code.spec_bytes(),
                                    code_bytes(self@[i as int]),
                                    code_bytes(self@[p]),
                                );
                                lemma_bytes_lt_irrefl(code_bytes(self@[p]));
                            }
                        }
                    }
                    return (i, false);
                },
            }
        }
        proof {
            lemma_code_insert_pos_at(self@, code.spec_bytes(), n as int);
            lemma_bytes_lt_irrefl(code.spec_bytes());
        }
        (n, false)
    }

    /// Inserting at the scan position keeps the rows ascending.
    proof fn lemma_insert_keeps_order(self, p: int, input: Country)
        requires
            self.wf(),
            0 <= p <= self@.len(),
            forall|j: int|
                0 <= j < p ==> bytes_lt(#[trigger] code_bytes(self@[j]), code_bytes(input)),
            p < self@.len() ==> bytes_lt(code_bytes(input), code_bytes(self@[p])),
        ensures
            codes_ascending(self@.insert(p, input)),
    {
        let cur = self@.insert(p, input);
        let cb = code_bytes(input);
        assert forall|i: int, j: int| 0 <= i < j < cur.len() implies bytes_lt(
            #[trigger] code_bytes(cur[i]),
            #[trigger] code_bytes(cur[j]),
        ) by {
            if i < p && j == p {
            } else if i == p && j > p {
                if j - 1 > p {
                    lemma_bytes_lt_trans(cb, code_bytes(self@[p]), code_bytes(self@[j - 1]));
                }
            } else if i < p && j > p {
                assert(bytes_lt(code_bytes(self@[i]), code_bytes(self@[j - 1])));
            } else if i > p {
                assert(bytes_lt(code_bytes(self@[i - 1]), code_bytes(self@[j - 1])));
            } else {
                assert(bytes_lt(code_bytes(self@[i]), code_bytes(self@[j])));
            }
        }
    }

    /// Inserts `input` under its own natural key and echoes the row;
    /// refuses a key some row already carries, as the storage layer's
    /// uniqueness constraint does.
    pub fn create(&mut self, input: Country) -> (r: Result<Country, RepoError>)
        requires
            old(self).wf(),
        ensures
            final(self).wf(),
            r is Ok <==> !contains_code(old(self)@, code_bytes(input)),
            match r {
                Ok(e) => {
                    &&& e == input
                    &&& final(self)@ =~= old(self)@.insert(
                        code_insert_pos(old(self)@, code_bytes(input)),
                        input,
                    )
                    &&& contains_code(final(self)@, code_bytes(input))
                    &&& row_at_code(final(self)@, code_bytes(input)) == input
                },
                Err(er) => er is Storage && *final(self) == *old(self),
            },
    {
        let (p, found) = self.scan_code(input.code.as_str());
        if found {
            return Err(RepoError::Storage("a country with this code already exists".to_owned()));
        }
        let stored = Country { code: input.code.clone(), name: input.name.clone() };
        proof {
            self.lemma_insert_keeps_order(p as int, input);
        }
        self.rows.insert(p, stored);
        proof {
            let cur = self@;
            let cb = code_bytes(input);
            assert forall|j: int| 0 <= j < p as int implies (#[trigger] code_bytes(cur[j]))
                != cb by {
                lemma_bytes_lt_irrefl(cb);
            }
            assert(code_bytes(cur[p as int]) == cb);
            lemma_code_index_at(cur, cb, p as int);
        }
        Ok(input)
    }

    /// Removes the row carrying key `code` and returns its previous
    /// values; fails with `NotFound` exactly when no row carries it.
    /// The key is gone afterwards, so deleting it again fails.
    pub fn delete(&mut self, code: &str) -> (r: Result<Country, RepoError>)
        requires
            old(self).wf(),
        ensures
            final(self).wf(),
            r is Ok <==> contains_code(old(self)@, code.spec_bytes()),
            match r {
                Ok(e) => {
                    &&& e == row_at_code(old(self)@, code.spec_bytes())
                    &&& final(self)@ =~= old(self)@.remove(
                        code_index(old(self)@, code.spec_bytes()),
                    )
                    &&& !contains_code(final(self)@, code.spec_bytes())
                },
                Err(er) => er is NotFound && *final(self) == *old(self),
            },
    {
        let (p, found) = self.scan_code(code);
        if !found {
            return Err(RepoError::NotFound);
        }
        let ghost prev = self@;
        let e = self.rows.remove(p);
        proof {
            let cur = self@;
            let cb = code.spec_bytes();
            assert forall|i: int, j: int| 0 <= i < j < cur.len() implies bytes_lt(
                #[trigger] code_bytes(cur[i]),
                #[trigger] code_bytes(cur[j]),
            ) by {
                if j < p as int {
                    assert(bytes_lt(code_bytes(prev[i]), code_bytes(prev[j])));
                } else if i < p as int {
                    assert(bytes_lt(code_bytes(prev[i]), code_bytes(prev[j + 1])));
                } else {
                    assert(bytes_lt(code_bytes(prev[i + 1]), code_bytes(prev[j + 1])));
                }
            }
            lemma_bytes_lt_irrefl(cb);
            assert forall|j: int| 0 <= j < cur.len() implies (#[trigger] code_bytes(cur[j]))
                != cb by {
                if j < p as int {
                    assert(bytes_lt(code_bytes(prev[j]), cb));
                } else {
                    assert(bytes_lt(code_bytes(prev[p as int]), code_bytes(prev[j + 1])));
                }
            }
        }
        Ok(e)
    }

    /// Overwrites the row carrying key `code` with `input`, possibly
    /// moving it to a new key, and echoes the payload. Fails with
    /// `NotFound` exactly when no row carries `code`, and refuses a new
    /// key some other row already carries.
    pub fn update(&mut self, code: &str, input: Country) -> (r: Result<Country, RepoError>)
        requires
            old(self).wf(),
        ensures
            final(self).wf(),
            r is Ok <==> contains_code(old(self)@, code.spec_bytes()) && (code_bytes(input)
                == code.spec_bytes() || !contains_code(old(self)@, code_bytes(input))),
            match r {
                Ok(e) => {
                    &&& e == input
                    &&& final(self)@ =~= ({
                        let trimmed = old(self)@.remove(
                            code_index(old(self)@, code.spec_bytes()),
                        );
                        trimmed.insert(code_insert_pos(trimmed, code_bytes(input)), input)
                    })
                    &&& contains_code(final(self)@, code_bytes(input))
                    &&& row_at_code(final(self)@, code_bytes(input)) == input
                },
                Err(er) => {
                    &&& *final(self) == *old(self)
                    &&& (er is NotFound <==> !contains_code(old(self)@, code.spec_bytes()))
                    &&& (er is Storage <==> contains_code(old(self)@, code.spec_bytes())
                        && code_bytes(input) != code.spec_bytes() && contains_code(
                        old(self)@,
                        code_bytes(input),
                    ))
                },
            },
    {
        let (p, found) = self.scan_code(code);
        if !found {
            return Err(RepoError::NotFound);
        }
        let (q, clash) = self.scan_code(input.code.as_str());
        if clash && q != p {
            proof {
                if code_bytes(input) == code.spec_bytes() {
                    assert(q == p);
                }
            }
            return Err(
                RepoError::Storage("a country with the new code already exists".to_owned()),
            );
        }
        proof {
            if clash {
                assert(q == p);
                assert(code_bytes(input) == code.spec_bytes());
            }
        }
        let ghost prev = self@;
        let _replaced = self.rows.remove(p);
        proof {
            let cur = self@;
            assert forall|i: int, j: int| 0 <= i < j < cur.len() implies bytes_lt(
                #[trigger] code_bytes(cur[i]),
                #[trigger] code_bytes(cur[j]),
            ) by {
                if j < p as int {
                    assert(bytes_lt(code_bytes(prev[i]), code_bytes(prev[j])));
                } else if i < p as int {
                    assert(bytes_lt(code_bytes(prev[i]), code_bytes(prev[j + 1])));
                } else {
                    assert(bytes_lt(code_bytes(prev[i + 1]), code_bytes(prev[j + 1])));
                }
            }
            lemma_bytes_lt_irrefl(code_bytes(input));
            assert forall|j: int| 0 <= j < cur.len() implies (#[trigger] code_bytes(cur[j]))
                != code_bytes(input) by {
                let cb = code.spec_bytes();
                if code_bytes(input) == cb {
                    if j < p as int {
                        assert(bytes_lt(code_bytes(prev[j]), cb));
                    } else {
                        assert(bytes_lt(code_bytes(prev[p as int]), code_bytes(prev[j + 1])));
                    }
                } else {
                    if j < p as int {
                        assert(prev[j] == cur[j]);
                    } else {
                        assert(prev[j + 1] == cur[j]);
                    }
                }
            }
        }
        let (t, dup) = self.scan_code(input.code.as_str());
        let stored = Country { code: input.code.clone(), name: input.name.clone() };
        proof {
            assert(!dup);
            self.lemma_insert_keeps_order(t as int, input);
        }
        self.rows.insert(t, stored);
        proof {
            let cur = self@;
            let cb = code_bytes(input);
            assert forall|j: int| 0 <= j < t as int implies (#[trigger] code_bytes(cur[j]))
                != cb by {
                lemma_bytes_lt_irrefl(cb);
            }
            assert(code_bytes(cur[t as int]) == cb);
            lemma_code_index_at(cur, cb, t as int);
        }
        Ok(input)
    }
}

} // verus!

//! Catalog read view: books with their authors aggregated into one
//! comma-separated list.
//!
//! A book joins its author links in link order, resolving each author;
//! links pointing at a missing author are dropped, and a book that ends
//! up with no authors at all is excluded, as are books whose publisher
//! or category is missing — every join here is inner. The publisher is
//! resolved through the book's publisher column. One output row stands
//! per kept book, in input order.

use vstd::prelude::*;

use crate::entity::Entity;
use crate::model::{Author, AuthorBook, Book, Category, Date, Publisher};
use crate::repo::{contains_key, find_row, keys_ascending, row_at_key};
use crate::text::{comma_join, compose_name, full_name};
use vstd::string::StringExecFns;

verus! {

/// One catalog row: a book with its publisher and category names and
/// its aggregated author list.
pub struct BookReadonly {
    pub id: i32,
    pub title: String,
    pub release: Date,
    pub publisher: String,
    pub category: String,
    pub student_access: bool,
    pub authors: String,
}

/// The composed names of a book's authors, in author-link order; links
/// whose author row is missing contribute nothing.
pub open spec fn book_author_names(
    links: Seq<AuthorBook>,
    authors: Seq<Author>,
    book_id: int,
) -> Seq<Seq<char>>
    decreases links.len(),
{
    if links.len() == 0 {
        Seq::empty()
    } else {
        let rest = book_author_names(links.drop_last(), authors, book_id);
        let l = links.last();
        if l.book_id as int == book_id && contains_key(authors, l.author_id as int) {
            let a = row_at_key(authors, l.author_id as int);
            rest.push(full_name(a.lastname@, a.name@, a.surname@))
        } else {
            rest
        }
    }
}

/// Whether a book stays in the catalog view: at least one resolved
/// author, and an existing publisher and category.
pub open spec fn book_kept(
    b: Book,
    links: Seq<AuthorBook>,
    authors: Seq<Author>,
    publishers: Seq<Publisher>,
    categories: Seq<Category>,
) -> bool {
    &&& book_author_names(links, authors, b.id as int).len() > 0
    &&& contains_key(publishers, b.publisher as int)
    &&& contains_key(categories, b.category as int)
}

/// The books kept in the catalog view, in input order.
pub open spec fn books_kept(
    books: Seq<Book>,
    links: Seq<AuthorBook>,
    authors: Seq<Author>,
    publishers: Seq<Publisher>,
    categories: Seq<Category>,
) -> Seq<Book>
    decreases books.len(),
{
    if books.len() == 0 {
        Seq::empty()
    } else {
        let rest = books_kept(books.drop_last(), links, authors, publishers, categories);
        if book_kept(books.last(), links, authors, publishers, categories) {
            rest.push(books.last())
        } else {
            rest
        }
    }
}

/// Every kept book comes from the input rows.
proof fn lemma_books_kept_from(
    books: Seq<Book>,
    links: Seq<AuthorBook>,
    authors: Seq<Author>,
    publishers: Seq<Publisher>,
    categories: Seq<Category>,
)
    ensures
        forall|i: int|
            0 <= i < books_kept(books, links, authors, publishers, categories).len()
                ==> books.contains(
                #[trigger] books_kept(books, links, authors, publishers, categories)[i],
            ),
    decreases books.len(),
{
    if books.len() > 0 {
        let rest = books.drop_last();
        lemma_books_kept_from(rest, links, authors, publishers, categories);
        let k = books_kept(books, links, authors, publishers, categories);
        assert forall|i: int| 0 <= i < k.len() implies books.contains(#[trigger] k[i]) by {
            let kr = books_kept(rest, links, authors, publishers, categories);
            if i < kr.len() {
                let p = choose|p: int| 0 <= p < rest.len() && rest[p] == kr[i];
                assert(books[p] == kr[i]);
            } else {
                assert(books[books.len() - 1] == k[i]);
            }
        }
    }
}

/// A book table listed ascending by id keeps its order through the
/// catalog filter: the kept books ascend by id too.
pub proof fn lemma_catalog_sorted(
    books: Seq<Book>,
    links: Seq<AuthorBook>,
    authors: Seq<Author>,
    publishers: Seq<Publisher>,
    categories: Seq<Category>,
)
    requires
        keys_ascending(books),
    ensures
        keys_ascending(books_kept(books, links, authors, publishers, categories)),
    decreases books.len(),
{
    if books.len() > 0 {
        let rest = books.drop_last();
        lemma_catalog_sorted(rest, links, authors, publishers, categories);
        lemma_books_kept_from(rest, links, authors, publishers, categories);
        let k = books_kept(books, links, authors, publishers, categories);
        let kr = books_kept(rest, links, authors, publishers, categories);
        assert forall|i: int, j: int| 0 <= i < j < k.len() implies (#[trigger] k[i].key()) < (
        #[trigger] k[j].key()) by {
            if j < kr.len() {
                assert(kr[i].key() < kr[j].key());
            } else {
                let p = choose|p: int| 0 <= p < rest.len() && rest[p] == kr[i];
                assert(books[p].key() < books[books.len() - 1].key());
            }
        }
    }
}

/// How a catalog row presents a kept book: every column carried over,
/// the publisher and category denormalized to their names, and the
/// authors aggregated comma-separated in link order.
pub open spec fn book_row_matches(
    b: Book,
    links: Seq<AuthorBook>,
    authors: Seq<Author>,
    publishers: Seq<Publisher>,
    categories: Seq<Category>,
    out: BookReadonly,
) -> bool {
    &&& out.id == b.id
    &&& out.title == b.title
    &&& out.release == b.release
    &&& out.publisher@ == row_at_key(publishers, b.publisher as int).name@
    &&& out.category@ == row_at_key(categories, b.category as int).name@
    &&& out.student_access == b.student_access
    &&& out.authors@ == comma_join(book_author_names(links, authors, b.id as int))
}

/// The aggregated author list of one book, or nothing when no author
/// link of the book resolves.
#[verifier::loop_isolation(false)]
fn aggregate_authors(links: &Vec<AuthorBook>, authors: &Vec<Author>, book_id: i32) -> (r: Option<
    String,
>)
    ensures
        ({
            let names = book_author_names(links@, authors@, book_id as int);
            match r {
                Some(s) => names.len() > 0 && s@ == comma_join(names),
                None => names.len() == 0,
            }
        }),
{
    proof {
        reveal_strlit(", ");
    }
    let mut acc: Option<String> = None;
    let n = links.len();
    let mut i: usize = 0;
    while i < n
        invariant
            i <= n,
            ({
                let names = book_author_names(links@.take(i as int), authors@, book_id as int);
                match acc {
                    Some(s) => names.len() > 0 && s@ == comma_join(names),
                    None => names.len() == 0,
                }
            }),
        decreases n - i,
    {
        let l = &links[i];
        proof {
            assert(links@.take(i as int + 1).drop_last() =~= links@.take(i as int));
            assert(links@.take(i as int + 1).last() == links@[i as int]);
        }
        if l.book_id == book_id {
            match find_row(authors, l.author_id) {
                Some(a) => {
                    let nm = compose_name(&a.lastname, &a.name, &a.surname);
                    proof {
                        let names = book_author_names(
                            links@.take(i as int),
                            authors@,
                            book_id as int,
                        );
                        assert(names.push(nm@).drop_last() =~= names);
                        assert(names.push(nm@).last() == nm@);
                    }
                    acc = match acc {
                        None => Some(nm),
                        Some(s) => {
                            let mut joined = s;
                            joined.append(", ");
                            joined.append(nm.as_str());
                            proof {
                                assert(", "@ =~= seq![',', ' ']);
                            }
                            Some(joined)
                        },
                    };
                },
                None => {},
            }
        }
        i = i + 1;
    }
    proof {
        assert(links@.take(n as int) =~= links@);
    }
    acc
}

/// The catalog roster: one row per kept book, in input order, with the
/// aggregated author list and the resolved publisher and category.
#[verifier::loop_isolation(false)]
pub fn book_roster(
    books: &Vec<Book>,
    links: &Vec<AuthorBook>,
    authors: &Vec<Author>,
    publishers: &Vec<Publisher>,
    categories: &Vec<Category>,
) -> (r: Vec<BookReadonly>)
    ensures
        ({
            let k = books_kept(books@, links@, authors@, publishers@, categories@);
            &&& r@.len() == k.len()
            &&& forall|i: int|
                0 <= i < k.len() ==> book_row_matches(
                    k[i],
                    links@,
                    authors@,
                    publishers@,
                    categories@,
                    #[trigger] r@[i],
                )
        }),
{
    let mut out: Vec<BookReadonly> = Vec::new();
    let n = books.len();
    let mut i: usize = 0;
    while i < n
        invariant
            i <= n,
            ({
                let k = books_kept(books@.take(i as int), links@, authors@, publishers@,
                    categories@);
                &&& out@.len() == k.len()
                &&& forall|j: int|
                    0 <= j < k.len() ==> book_row_matches(
                        k[j],
                        links@,
                        authors@,
                        publishers@,
                        categories@,
                        #[trigger] out@[j],
                    )
            }),
        decreases n - i,
    {
        let b = &books[i];
        proof {
            assert(books@.take(i as int + 1).drop_last() =~= books@.take(i as int));
            assert(books@.take(i as int + 1).last() == books@[i as int]);
        }
        match aggregate_authors(links, authors, b.id) {
            Some(agg) => match find_row(publishers, b.publisher) {
                Some(p) => match find_row(categories, b.category) {
                    Some(c) => {
                        out.push(
                            BookReadonly {
                                id: b.id,
                                title: b.title.clone(),
                                release: b.release,
                                publisher: p.name.clone(),
                                category: c.name.clone(),
                                student_access: b.student_access,
                                authors: agg,
                            },
                        );
                    },
                    None => {},
                },
                None => {},
            },
            None => {},
        }
        i = i + 1;
    }
    proof {
        assert(books@.take(n as int) =~= books@);
    }
    out
}

} // verus!

//! Where a record keeps its DOI.

use crate::json::{json_text_member, texts, Record};
use crate::strings::string_views;
use vstd::prelude::*;

verus! {

/// The first of two candidates that is there.
pub open spec fn first_of(first: Option<Seq<char>>, second: Option<Seq<char>>) -> Option<
    Seq<char>,
> {
    match first {
        Some(doi) => Some(doi),
        None => second,
    }
}

/// The DOI of the record with compact text `text`: the string under `DOI`
/// where there is one, else the string under `doi`, else none.
pub open spec fn doi_of(text: Seq<char>) -> Option<Seq<char>> {
    first_of(json_text_member(text, "DOI"@), json_text_member(text, "doi"@))
}

/// `found`, taken by its view.
pub open spec fn view_of(found: Option<String>) -> Option<Seq<char>> {
    match found {
        Some(s) => Some(s@),
        None => None,
    }
}

/// Chooses between what was found under the upper-case key and what was
/// found under the lower-case key: the first if it is there, else the second.
pub fn choose_doi(upper: Option<String>, lower: Option<String>) -> (r: Option<String>)
    ensures
        view_of(r) == first_of(view_of(upper), view_of(lower)),
{
    match upper {
        Some(doi) => Some(doi),
        None => lower,
    }
}

/// Looks a record's DOI up, first under the upper-case key and then under the
/// lower-case one. A record without one is no error: the answer is `None`.
pub fn get_doi_from_record(record: &Record) -> (r: Option<String>)
    ensures
        view_of(r) == doi_of(record@),
{
    choose_doi(record.text_member("DOI"), record.text_member("doi"))
}

/// The DOIs of the records with compact texts `texts`, in the order of the
/// records; a record without a DOI gives none.
pub open spec fn dois_of(texts: Seq<Seq<char>>) -> Seq<Seq<char>>
    decreases texts.len(),
{
    if texts.len() == 0 {
        Seq::empty()
    } else {
        let before = dois_of(texts.drop_last());
        match doi_of(texts.last()) {
            Some(doi) => before.push(doi),
            None => before,
        }
    }
}

/// The DOIs of `records`, one for each record that has one, in the order of
/// the records.
pub fn dois(records: &Vec<Record>) -> (r: Vec<String>)
    ensures
        string_views(r@) == dois_of(texts(records@)),
{
    let mut found: Vec<String> = Vec::new();
    let mut i: usize = 0;
    while i < records.len()
        invariant
            i <= records.len(),
            string_views(found@) == dois_of(texts(records@).take(i as int)),
        decreases records.len() - i,
    {
        proof {
            assert(texts(records@).take(i + 1).drop_last() =~= texts(records@).take(i as int));
        }
        match get_doi_from_record(&records[i]) {
            Some(doi) => found.push(doi),
            None => {},
        }
        i += 1;
    }
    assert(texts(records@).take(records@.len() as int) =~= texts(records@));
    found
}

} // verus!

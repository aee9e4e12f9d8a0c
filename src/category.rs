//! Browsing the catalog by one of its categorical fields.
use crate::error::ServiceError;
use vstd::prelude::*;

verus! {

#[verifier::external_type_specification]
#[verifier::external_body]
pub struct ExJsonError(serde_json::Error);

/// The JSON text of an array of strings, as serde_json writes it.
pub uninterp spec fn json_of_strings(items: Seq<Seq<char>>) -> Seq<char>;

/// Relies on serde_json::to_string: its text is the compact JSON encoding of
/// the array, a function of the strings alone. It fails only where a
/// `Serialize` impl fails or a map has non-string keys; `String`'s impl never
/// fails and the writer is a `Vec<u8>`, so on strings it always succeeds.
#[verifier::external_body]
fn encode_strings(items: &Vec<String>) -> (r: Result<String, serde_json::Error>)
    ensures
        r is Ok,
        r matches Ok(t) ==> t@ == json_of_strings(texts(items@)),
{
    serde_json::to_string(items)
}

/// Relies on serde_json::Error's Display impl, for the text of an encoding failure.
#[verifier::external_body]
fn json_error_text(e: &serde_json::Error) -> String {
    e.to_string()
}

/// The three catalog fields whose distinct values can be browsed.
#[derive(PartialEq, Eq, Structural, Clone, Copy, Debug)]
pub enum Category {
    Artists,
    Albums,
    Genres,
}

/// The category that a path segment names, if it names one.
pub open spec fn category_named(text: Seq<char>) -> Option<Category> {
    if text == "artists"@ {
        Some(Category::Artists)
    } else if text == "albums"@ {
        Some(Category::Albums)
    } else if text == "genres"@ {
        Some(Category::Genres)
    } else {
        None
    }
}

/// Reads a category from its literal name. Any other text is rejected with
/// `InvalidInput`, so the rejection comes before the store is touched.
pub fn parse_category(text: &str) -> (r: Result<Category, ServiceError>)
    ensures
        category_named(text@) matches Some(c) ==> r == Ok::<Category, ServiceError>(c),
        category_named(text@) is None ==> r matches Err(ServiceError::InvalidInput),
{
    let owned = text.to_owned();
    if owned == "artists".to_owned() {
        Ok(Category::Artists)
    } else if owned == "albums".to_owned() {
        Ok(Category::Albums)
    } else if owned == "genres".to_owned() {
        Ok(Category::Genres)
    } else {
        Err(ServiceError::InvalidInput)
    }
}

/// The views of a sequence of strings.
pub open spec fn texts(s: Seq<String>) -> Seq<Seq<char>> {
    s.map_values(|x: String| x@)
}

/// The values of `s` in order of first occurrence, each kept once.
pub open spec fn dedup(s: Seq<Seq<char>>) -> Seq<Seq<char>>
    decreases s.len(),
{
    if s.len() == 0 {
        Seq::empty()
    } else {
        let d = dedup(s.drop_last());
        if d.contains(s.last()) {
            d
        } else {
            d.push(s.last())
        }
    }
}

/// Deduplication leaves no value twice and loses none.
pub proof fn lemma_dedup_distinct(s: Seq<Seq<char>>)
    ensures
        dedup(s).no_duplicates(),
        dedup(s).to_set() == s.to_set(),
    decreases s.len(),
{
    if s.len() > 0 {
        let p = s.drop_last();
        lemma_dedup_distinct(p);
        assert(s == p.push(s.last()));
        p.lemma_push_to_set_commute(s.last());
        dedup(p).lemma_push_to_set_commute(s.last());
        if dedup(p).contains(s.last()) {
            assert(dedup(p).to_set().contains(s.last()));
            assert(dedup(p).to_set().insert(s.last()) =~= dedup(p).to_set());
        }
    } else {
        assert(s.to_set() =~= Set::empty());
        assert(dedup(s).to_set() =~= Set::empty());
    }
}

/// The distinct values of a loaded column, in order of first occurrence.
pub fn distinct_values(values: &Vec<String>) -> (r: Vec<String>)
    ensures
        texts(r@) == dedup(texts(values@)),
        texts(r@).no_duplicates(),
        texts(r@).to_set() == texts(values@).to_set(),
{
    let mut out: Vec<String> = Vec::new();
    let mut i: usize = 0;
    while i < values.len()
        invariant
            i <= values.len(),
            texts(out@) == dedup(texts(values@).take(i as int)),
        decreases values.len() - i,
    {
        let ghost seen = texts(values@).take(i as int);
        let mut found = false;
        let mut j: usize = 0;
        while j < out.len()
            invariant
                j <= out.len(),
                i < values.len(),
                texts(out@) == dedup(seen),
                found <==> exists|k: int| 0 <= k < j && out@[k]@ == values@[i as int]@,
            decreases out.len() - j,
        {
            if out[j] == values[i] {
                found = true;
            }
            j += 1;
        }
        proof {
            let next = texts(values@).take(i + 1);
            assert(next.drop_last() =~= seen);
            assert(next.last() == values@[i as int]@);
            if found {
                let k = choose|k: int| 0 <= k < out.len() && out@[k]@ == values@[i as int]@;
                assert(texts(out@)[k] == values@[i as int]@);
            } else {
                assert forall|k: int| 0 <= k < out.len() implies texts(out@)[k]
                    != values@[i as int]@ by {
                    assert(out@[k]@ != values@[i as int]@);
                }
            }
        }
        if !found {
            let ghost before = out@;
            out.push(values[i].clone());
            proof {
                assert(texts(out@) =~= texts(before).push(values@[i as int]@));
            }
        }
        i += 1;
    }
    proof {
        assert(texts(values@).take(values.len() as int) =~= texts(values@));
        lemma_dedup_distinct(texts(values@));
    }
    out
}

/// The response body for a browse request: the distinct values of the loaded
/// column, each once, in order of first occurrence, as a JSON array.
pub fn browse_all(values: &Vec<String>) -> (r: Result<String, ServiceError>)
    ensures
        r is Ok,
        r matches Ok(t) ==> t@ == json_of_strings(dedup(texts(values@))),
{
    let distinct = distinct_values(values);
    match encode_strings(&distinct) {
        Ok(t) => Ok(t),
        Err(e) => Err(ServiceError::SerializationError(json_error_text(&e))),
    }
}

} // verus!

//! The header row of a transaction table: the column names `type`, `client`,
//! `tx` and `amount`, in that order, compared without surrounding whitespace
//! and without regard to case.
use vstd::prelude::*;

verus! {

/// What `str::trim` returns for a string.
pub uninterp spec fn trimmed_of(s: Seq<char>) -> Seq<char>;

/// What `str::to_lowercase` returns for a string.
pub uninterp spec fn lower_of(s: Seq<char>) -> Seq<char>;

/// Relies on `str::trim`: the string without leading and trailing white
/// space, a function of the characters alone.
#[verifier::external_body]
fn trim(s: &str) -> (r: &str)
    ensures
        r@ == trimmed_of(s@),
{
    s.trim()
}

/// Relies on `str::to_lowercase`: the lowercase form of the string, a
/// function of the characters alone.
#[verifier::external_body]
fn lowercase(s: &str) -> (r: String)
    ensures
        r@ == lower_of(s@),
{
    s.to_lowercase()
}

/// The expected column names, in order.
pub open spec fn column_names() -> Seq<Seq<char>> {
    seq![
        seq!['t', 'y', 'p', 'e'],
        seq!['c', 'l', 'i', 'e', 'n', 't'],
        seq!['t', 'x'],
        seq!['a', 'm', 'o', 'u', 'n', 't'],
    ]
}

/// The normalised form of one header cell.
pub open spec fn folded(s: Seq<char>) -> Seq<char> {
    lower_of(trimmed_of(s))
}

fn column_name(i: usize) -> (r: String)
    requires
        i < 4,
    ensures
        r@ == column_names()[i as int],
{
    if i == 0 {
        proof {
            reveal_strlit("type");
        }
        "type".to_owned()
    } else if i == 1 {
        proof {
            reveal_strlit("client");
        }
        "client".to_owned()
    } else if i == 2 {
        proof {
            reveal_strlit("tx");
        }
        "tx".to_owned()
    } else {
        proof {
            reveal_strlit("amount");
        }
        "amount".to_owned()
    }
}

/// Whether already normalised header cells are exactly the expected column
/// names.
pub fn folded_headers_match(cells: &Vec<String>) -> (r: bool)
    ensures
        r == (cells@.len() == 4 && forall|i: int|
            0 <= i < 4 ==> #[trigger] cells@[i]@ == column_names()[i]),
{
    if cells.len() != 4 {
        return false;
    }
    let mut i: usize = 0;
    while i < 4
        invariant
            cells@.len() == 4,
            i <= 4,
            forall|j: int| 0 <= j < i ==> #[trigger] cells@[j]@ == column_names()[j],
        decreases 4 - i,
    {
        let expected = column_name(i);
        if !(cells[i] == expected) {
            return false;
        }
        i = i + 1;
    }
    true
}

/// Whether a header row names the columns `type, client, tx, amount`, each
/// cell compared after trimming white space and lowercasing.
pub fn headers_match(cells: &Vec<String>) -> (r: bool)
    ensures
        r == (cells@.len() == 4 && forall|i: int|
            0 <= i < 4 ==> #[trigger] folded(cells@[i]@) == column_names()[i]),
{
    let mut normalised: Vec<String> = Vec::new();
    let mut i: usize = 0;
    while i < cells.len()
        invariant
            i <= cells@.len(),
            normalised@.len() == i,
            forall|j: int| 0 <= j < i ==> #[trigger] normalised@[j]@ == folded(cells@[j]@),
        decreases cells@.len() - i,
    {
        let t = trim(cells[i].as_str());
        normalised.push(lowercase(t));
        i = i + 1;
    }
    let r = folded_headers_match(&normalised);
    assert(r == (cells@.len() == 4 && forall|i: int|
        0 <= i < 4 ==> #[trigger] folded(cells@[i]@) == column_names()[i])) by {
        if cells@.len() == 4 {
            if r {
                assert forall|i: int| 0 <= i < 4 implies #[trigger] folded(cells@[i]@)
                    == column_names()[i] by {
                    assert(normalised@[i]@ == column_names()[i]);
                }
            } else {
                let k = choose|k: int| 0 <= k < 4 && #[trigger] normalised@[k]@ != column_names()[k];
                assert(folded(cells@[k]@) != column_names()[k]);
            }
        }
    }
    r
}

} // verus!

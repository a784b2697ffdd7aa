//! Export of a sampled pool: the CSV text, and what the download sink
//! needs — a file name and a data URL carrying the CSV base64-encoded.

use vstd::prelude::*;
use vstd::string::StringExecFns;

use crate::card::Card;
use crate::card::CardView;

verus! {

/// One exported row: the card's name, quoted, then a newline.
pub open spec fn csv_row(c: CardView) -> Seq<char> {
    "\""@ + c.name + "\"\n"@
}

/// The exported rows of a pool, in pool order.
pub open spec fn csv_rows(pool: Seq<CardView>) -> Seq<char>
    decreases pool.len(),
{
    if pool.len() == 0 {
        Seq::empty()
    } else {
        csv_rows(pool.drop_last()) + csv_row(pool.last())
    }
}

/// The whole CSV document: the header line, then one row per card. An empty
/// pool yields exactly the header line.
pub open spec fn csv_text(pool: Seq<CardView>) -> Seq<char> {
    "name\n"@ + csv_rows(pool)
}

/// Renders a pool as CSV: the single header line `name`, then each card's
/// name, quoted, one per line, in pool order.
pub fn generate_csv(pool: &Vec<Card>) -> (r: String)
    ensures
        r@ == csv_text(pool.deep_view()),
{
    let ghost pv = pool.deep_view();
    let mut csv = String::new();
    csv.append("name\n");
    proof {
        assert(csv@ =~= "name\n"@ + csv_rows(pv.take(0)));
    }
    let n = pool.len();
    for i in 0..n
        invariant
            n == pool.len(),
            pv == pool.deep_view(),
            csv@ == "name\n"@ + csv_rows(pv.take(i as int)),
    {
        csv.append("\"");
        csv.append(pool[i].name.as_str());
        csv.append("\"\n");
        proof {
            assert(pv.take(i + 1).drop_last() =~= pv.take(i as int));
            assert(pv.take(i + 1).last() == pv[i as int]);
            assert(pool.deep_view()[i as int] == pool@[i as int].deep_view());
            assert(csv@ =~= "name\n"@ + csv_rows(pv.take(i + 1)));
        }
    }
    proof {
        assert(pv.take(n as int) =~= pv);
    }
    csv
}

/// What the outside encoder returns on a given text: its base64 encoding.
pub uninterp spec fn base64_of(s: Seq<char>) -> Seq<char>;

/// Relies on `base64::encode`: the standard alphabet with padding, a
/// function of the input bytes alone; its result is named [`base64_of`].
/// An empty input encodes to an empty string.
#[verifier::external_body]
fn base64_encode(s: &str) -> (r: String)
    ensures
        r@ == base64_of(s@),
        s@.len() == 0 ==> r@.len() == 0,
{
    base64::encode(s)
}

/// Builds the data URL that downloads the given CSV text.
pub fn download_link(csv: &str) -> (r: String)
    ensures
        r@ == "data:text/csv;base64,"@ + base64_of(csv@),
{
    let mut link = String::new();
    link.append("data:text/csv;base64,");
    let encoded = base64_encode(csv);
    link.append(encoded.as_str());
    link
}

/// The export file's name: the pool's name with the CSV extension.
pub fn csv_filename(pool_name: &str) -> (r: String)
    ensures
        r@ == pool_name@ + ".csv"@,
{
    let mut name = String::new();
    name.append(pool_name);
    name.append(".csv");
    name
}

/// Everything the download sink needs for a pool: the file name, and the
/// data URL whose payload is the pool's CSV, base64-encoded.
pub fn export_pool(pool_name: &str, pool: &Vec<Card>) -> (r: (String, String))
    ensures
        r.0@ == pool_name@ + ".csv"@,
        r.1@ == "data:text/csv;base64,"@ + base64_of(csv_text(pool.deep_view())),
{
    let csv = generate_csv(pool);
    (csv_filename(pool_name), download_link(csv.as_str()))
}

} // verus!

//! The text of the files handed to the warehouse and to the marketplace.
use vstd::prelude::*;

use crate::entry::{text_or_empty, views, Entry, EntryView};
use crate::ledger::{get_as_sums, summed, sums_fit};

verus! {

pub open spec fn digit_char(d: int) -> char {
    if d == 0 {
        '0'
    } else if d == 1 {
        '1'
    } else if d == 2 {
        '2'
    } else if d == 3 {
        '3'
    } else if d == 4 {
        '4'
    } else if d == 5 {
        '5'
    } else if d == 6 {
        '6'
    } else if d == 7 {
        '7'
    } else if d == 8 {
        '8'
    } else {
        '9'
    }
}

/// The decimal digits of `n`, without leading zeros.
pub open spec fn digits(n: nat) -> Seq<char>
    decreases n,
{
    if n < 10 {
        seq![digit_char(n as int)]
    } else {
        digits(n / 10).push(digit_char((n % 10) as int))
    }
}

/// `n` written in decimal, with a leading `-` when negative.
pub open spec fn decimal_text(n: int) -> Seq<char> {
    if n < 0 {
        seq!['-'] + digits((-n) as nat)
    } else {
        digits(n as nat)
    }
}

fn digit_text(d: u64) -> (r: &'static str)
    requires
        d < 10,
    ensures
        r@ == seq![digit_char(d as int)],
{
    proof {
        reveal_strlit("0");
        reveal_strlit("1");
        reveal_strlit("2");
        reveal_strlit("3");
        reveal_strlit("4");
        reveal_strlit("5");
        reveal_strlit("6");
        reveal_strlit("7");
        reveal_strlit("8");
        reveal_strlit("9");
    }
    if d == 0 {
        "0"
    } else if d == 1 {
        "1"
    } else if d == 2 {
        "2"
    } else if d == 3 {
        "3"
    } else if d == 4 {
        "4"
    } else if d == 5 {
        "5"
    } else if d == 6 {
        "6"
    } else if d == 7 {
        "7"
    } else if d == 8 {
        "8"
    } else {
        "9"
    }
}

fn append_digits(s: &mut String, n: u64)
    ensures
        final(s)@ == old(s)@ + digits(n as nat),
    decreases n,
{
    if n >= 10 {
        append_digits(s, n / 10);
    }
    s.append(digit_text(n % 10));
    assert(s@ =~= old(s)@ + digits(n as nat));
}

/// `n` in decimal, with a leading `-` when negative.
fn decimal(n: i32) -> (r: String)
    ensures
        r@ == decimal_text(n as int),
{
    let mut r = String::new();
    if n < 0 {
        r.append("-");
        proof {
            reveal_strlit("-");
        }
        let m: u64 = (-(n as i64)) as u64;
        append_digits(&mut r, m);
    } else {
        append_digits(&mut r, n as u64);
    }
    r
}

/// The check-file line of one summed entry: ASIN, title, units, size tier
/// and SKU, each quoted, then an empty UPC column.
pub open spec fn check_line(e: EntryView) -> Seq<char> {
    "\""@ + text_or_empty(e.asin) + "\",\""@ + text_or_empty(e.title) + "\",\""@
        + decimal_text(e.units as int) + "\",\""@ + text_or_empty(e.amz_size) + "\",\""@ + e.fnsku
        + "\",'\n"@
}

/// The lines of `s`, one after another.
pub open spec fn check_lines(s: Seq<EntryView>) -> Seq<char>
    decreases s.len(),
{
    if s.len() == 0 {
        Seq::empty()
    } else {
        check_lines(s.drop_last()) + check_line(s.last())
    }
}

/// The check file of plan `plan_name`: its name, the header, and one line
/// per SKU with the SKU's net units.
pub open spec fn check_file(entries: Seq<EntryView>, plan_name: Seq<char>) -> Seq<char> {
    plan_name + "\n"@ + "ASIN,TITLE,UNITS,SIZE,FNSKU,UPC,COUNT,NOTES\n"@ + check_lines(
        summed(entries),
    )
}

fn check_line_text(e: &Entry) -> (r: String)
    ensures
        r@ == check_line(e@),
{
    let mut line = String::from_str("\"");
    line.append(e.str_asin());
    line.append("\",\"");
    line.append(e.str_title());
    line.append("\",\"");
    let units = decimal(e.get_units());
    line.append(units.as_str());
    line.append("\",\"");
    line.append(e.str_amz_size());
    line.append("\",\"");
    line.append(e.str_fnsku());
    line.append("\",'\n");
    assert(line@ =~= check_line(e@));
    line
}

/// The text of the check file of plan `plan_name`.
pub fn check_file_contents(entries: &Vec<Entry>, plan_name: &str) -> (r: String)
    requires
        sums_fit(views(entries@)),
    ensures
        r@ == check_file(views(entries@), plan_name@),
{
    let mut contents = String::from_str(plan_name);
    contents.append("\n");
    contents.append("ASIN,TITLE,UNITS,SIZE,FNSKU,UPC,COUNT,NOTES\n");
    let ghost head = contents@;
    let sums = get_as_sums(entries);
    let ghost s = views(sums@);
    let mut i: usize = 0;
    while i < sums.len()
        invariant
            i <= sums.len(),
            s == views(sums@),
            contents@ == head + check_lines(s.take(i as int)),
        decreases sums.len() - i,
    {
        let e = &sums[i];
        assert(e@ == s[i as int]);
        let line = check_line_text(e);
        contents.append(line.as_str());
        assert(s.take(i + 1).drop_last() =~= s.take(i as int));
        assert(contents@ =~= head + check_lines(s.take(i + 1)));
        i = i + 1;
    }
    assert(s.take(sums.len() as int) =~= s);
    contents
}

/// The name of the check file of plan `plan_name`.
pub fn check_file_name(plan_name: &str) -> (r: String)
    ensures
        r@ == plan_name@ + "-CheckFile.csv"@,
{
    let mut name = String::from_str(plan_name);
    name.append("-CheckFile.csv");
    name
}

/// Why no upload file is written.
#[derive(Clone, Copy, Debug, PartialEq, Eq, Structural)]
pub enum UploadError {
    /// No entry has a merchant SKU, so the file would hold no line.
    Empty,
}

/// The entries of `s` that have a merchant SKU, in their order.
pub open spec fn with_msku(s: Seq<EntryView>) -> Seq<EntryView>
    decreases s.len(),
{
    if s.len() == 0 {
        Seq::empty()
    } else {
        let p = with_msku(s.drop_last());
        if s.last().msku is Some {
            p.push(s.last())
        } else {
            p
        }
    }
}

/// The upload line of one summed entry: merchant SKU, units and the two
/// `Seller` columns, separated by tabs.
pub open spec fn upload_line(e: EntryView) -> Seq<char> {
    text_or_empty(e.msku) + "\t"@ + decimal_text(e.units as int) + "\tSeller\tSeller\n"@
}

pub open spec fn upload_lines(s: Seq<EntryView>) -> Seq<char>
    decreases s.len(),
{
    if s.len() == 0 {
        Seq::empty()
    } else {
        upload_lines(s.drop_last()) + upload_line(s.last())
    }
}

/// The entries that have a merchant SKU, in their order.
pub fn entries_with_msku(entries: &Vec<Entry>) -> (r: Vec<Entry>)
    ensures
        views(r@) == with_msku(views(entries@)),
{
    let ghost s = views(entries@);
    let mut out: Vec<Entry> = Vec::new();
    let mut i: usize = 0;
    while i < entries.len()
        invariant
            i <= entries.len(),
            s == views(entries@),
            views(out@) == with_msku(s.take(i as int)),
        decreases entries.len() - i,
    {
        assert(s.take(i + 1).drop_last() =~= s.take(i as int));
        assert(entries@[i as int]@ == s[i as int]);
        if entries[i].get_msku().is_some() {
            let e = entries[i].clone();
            proof {
                crate::entry::lemma_views_push(out@, e);
            }
            out.push(e);
        }
        i = i + 1;
    }
    assert(s.take(entries.len() as int) =~= s);
    out
}

/// The upload file: `header`, then one line per SKU among the entries that
/// have a merchant SKU, with the SKU's net units. Refused when no entry has
/// a merchant SKU.
pub fn upload_contents(header: &str, entries: &Vec<Entry>) -> (r: Result<String, UploadError>)
    requires
        sums_fit(with_msku(views(entries@))),
    ensures
        with_msku(views(entries@)).len() == 0 ==> r == Err::<String, UploadError>(
            UploadError::Empty,
        ),
        with_msku(views(entries@)).len() > 0 ==> (r matches Ok(t) && t@ == header@
            + upload_lines(summed(with_msku(views(entries@))))),
{
    let with = entries_with_msku(entries);
    if with.len() == 0 {
        assert(views(with@).len() == 0);
        return Err(UploadError::Empty);
    }
    assert(views(with@).len() > 0);
    let mut contents = String::from_str(header);
    let sums = get_as_sums(&with);
    let ghost s = views(sums@);
    let mut i: usize = 0;
    while i < sums.len()
        invariant
            i <= sums.len(),
            s == views(sums@),
            contents@ == header@ + upload_lines(s.take(i as int)),
        decreases sums.len() - i,
    {
        let e = &sums[i];
        assert(e@ == s[i as int]);
        contents.append(e.str_msku());
        contents.append("\t");
        let units = decimal(e.get_units());
        contents.append(units.as_str());
        contents.append("\tSeller\tSeller\n");
        assert(s.take(i + 1).drop_last() =~= s.take(i as int));
        assert(contents@ =~= header@ + upload_lines(s.take(i + 1)));
        i = i + 1;
    }
    assert(s.take(sums.len() as int) =~= s);
    Ok(contents)
}

/// The name of the upload file of group `branch`.
pub fn upload_file_name(branch: &str) -> (r: String)
    ensures
        r@ == branch@ + "-Upload.txt"@,
{
    let mut name = String::from_str(branch);
    name.append("-Upload.txt");
    name
}

} // verus!

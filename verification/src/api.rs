//! The records that the program shows, and how it shows them.
use vstd::prelude::*;
use crate::text::texts;

verus! {

/// One record of the remote catalogue.
#[derive(Debug, Clone, PartialEq, Eq)]
pub struct WildpointerRFC {
    pub id: String,
    pub status: String,
    pub date: String,
    pub info_provided: String,
    pub last_updated: Option<String>,
    pub body: Option<String>,
}

/// A [`WildpointerRFC`] as plain text.
pub struct RfcView {
    pub id: Seq<char>,
    pub status: Seq<char>,
    pub date: Seq<char>,
    pub info_provided: Seq<char>,
    pub last_updated: Option<Seq<char>>,
    pub body: Option<Seq<char>>,
}

impl View for WildpointerRFC {
    type V = RfcView;

    open spec fn view(&self) -> RfcView {
        RfcView {
            id: self.id@,
            status: self.status@,
            date: self.date@,
            info_provided: self.info_provided@,
            last_updated: match self.last_updated {
                Some(text) => Some(text@),
                None => None,
            },
            body: match self.body {
                Some(text) => Some(text@),
                None => None,
            },
        }
    }
}

/// The records of a vector as plain text.
pub open spec fn records(rfcs: Seq<WildpointerRFC>) -> Seq<RfcView> {
    Seq::new(rfcs.len(), |i: int| rfcs[i]@)
}

/// The line of a field that may be missing: none where it is.
pub open spec fn spec_optional_line(label: Seq<char>, value: Option<Seq<char>>) -> Seq<Seq<char>> {
    match value {
        Some(text) => seq![label + text],
        None => Seq::empty(),
    }
}

/// The lines that show one record. The short form holds the four fields that every record
/// has; the full form adds a line for the date of the last change and one for the body, each
/// where the record has it.
pub open spec fn spec_describe(rfc: RfcView, minimal: bool) -> Seq<Seq<char>> {
    let head = seq![
        "RFC "@ + rfc.id,
        "Status: "@ + rfc.status,
        "Info Provided: "@ + rfc.info_provided,
        "Date: "@ + rfc.date,
    ];
    if minimal {
        head
    } else {
        head + spec_optional_line("Last updated: "@, rfc.last_updated) + spec_optional_line(
            "Body: "@,
            rfc.body,
        )
    }
}

/// The lines that show all records in order, an empty line behind each record.
pub open spec fn spec_listing(rfcs: Seq<RfcView>, minimal: bool) -> Seq<Seq<char>>
    decreases rfcs.len(),
{
    if rfcs.len() == 0 {
        Seq::empty()
    } else {
        spec_listing(rfcs.drop_last(), minimal) + spec_describe(rfcs.last(), minimal) + seq![
            Seq::<char>::empty(),
        ]
    }
}

/// Whether `i` is the place of the first record of `rfcs` with the identifier `id`.
pub open spec fn is_first_with_id(rfcs: Seq<RfcView>, id: Seq<char>, i: int) -> bool {
    &&& 0 <= i < rfcs.len()
    &&& rfcs[i].id == id
    &&& forall|k: int| 0 <= k < i ==> (#[trigger] rfcs[k]).id != id
}

/// A label and a text as one line.
fn labelled(label: &str, text: &String) -> (r: String)
    ensures
        r@ == label@ + text@,
{
    let mut out = String::from_str(label);
    out.append(text.as_str());
    out
}

impl WildpointerRFC {
    /// The lines that show the record, in the short form where `minimal` is set: see
    /// [`spec_describe`].
    pub fn describe(&self, minimal: bool) -> (r: Vec<String>)
        ensures
            texts(r@) == spec_describe(self@, minimal),
    {
        let mut lines: Vec<String> = Vec::new();
        lines.push(labelled("RFC ", &self.id));
        lines.push(labelled("Status: ", &self.status));
        lines.push(labelled("Info Provided: ", &self.info_provided));
        lines.push(labelled("Date: ", &self.date));
        if !minimal {
            if let Some(last_updated) = &self.last_updated {
                lines.push(labelled("Last updated: ", last_updated));
            }
            if let Some(body) = &self.body {
                lines.push(labelled("Body: ", body));
            }
        }
        assert(texts(lines@) =~= spec_describe(self@, minimal));
        lines
    }
}

/// The lines that show all of `rfcs`: see [`spec_listing`].
pub fn listing(rfcs: &Vec<WildpointerRFC>, minimal: bool) -> (r: Vec<String>)
    ensures
        texts(r@) == spec_listing(records(rfcs@), minimal),
{
    let ghost all = records(rfcs@);
    let mut lines: Vec<String> = Vec::new();
    let mut i: usize = 0;
    while i < rfcs.len()
        invariant
            i <= rfcs.len(),
            all == records(rfcs@),
            texts(lines@) == spec_listing(all.take(i as int), minimal),
        decreases rfcs.len() - i,
    {
        let ghost before = texts(lines@);
        let mut shown = rfcs[i].describe(minimal);
        let ghost added = texts(shown@);
        lines.append(&mut shown);
        lines.push(String::new());
        proof {
            let upto = all.take(i + 1);
            assert(upto.drop_last() =~= all.take(i as int));
            assert(upto.last() == rfcs@[i as int]@);
            assert(texts(lines@) =~= before + added + seq![Seq::<char>::empty()]);
        }
        i += 1;
    }
    assert(all.take(i as int) =~= all);
    lines
}

/// Finds the first record with the identifier `id` and returns its place, or `None` where no
/// record has that identifier.
pub fn find_rfc(rfcs: &Vec<WildpointerRFC>, id: &String) -> (r: Option<usize>)
    ensures
        match r {
            Some(i) => is_first_with_id(records(rfcs@), id@, i as int),
            None => forall|k: int|
                0 <= k < rfcs@.len() ==> (#[trigger] records(rfcs@)[k]).id != id@,
        },
{
    let mut i: usize = 0;
    while i < rfcs.len()
        invariant
            i <= rfcs.len(),
            forall|k: int| 0 <= k < i ==> (#[trigger] records(rfcs@)[k]).id != id@,
        decreases rfcs.len() - i,
    {
        if rfcs[i].id == *id {
            return Some(i);
        }
        i += 1;
    }
    None
}

} // verus!

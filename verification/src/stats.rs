//! Statistics reported by pools: a displayable summary and a CSV projection.
use vstd::prelude::*;
use vstd::string::StringExecFns;

verus! {

/// A single field of a CSV record.
pub enum CSVField {
    String(String),
    Integer(i64),
}

/// Statistics that a pool exposes: a one-line summary and a CSV projection.
pub trait Stats: Sized {
    /// The summary as a sequence of characters.
    spec fn spec_display(&self) -> Seq<char>;

    /// Renders the one-line summary.
    fn display(&self) -> (r: String)
        ensures
            r@ == self.spec_display(),
    ;

    /// The headers of the CSV projection.
    fn csv_headers(&self) -> Vec<CSVField>;

    /// The values of the CSV projection.
    fn to_csv_record(&self) -> Vec<CSVField>;
}

/// Statistics of a pool that has none.
#[derive(Clone, Copy)]
pub struct EmptyStats;

impl Stats for EmptyStats {
    open spec fn spec_display(&self) -> Seq<char> {
        Seq::empty()
    }

    fn display(&self) -> (r: String) {
        String::new()
    }

    fn csv_headers(&self) -> (r: Vec<CSVField>)
        ensures
            r@.len() == 0,
    {
        Vec::new()
    }

    fn to_csv_record(&self) -> (r: Vec<CSVField>)
        ensures
            r@.len() == 0,
    {
        Vec::new()
    }
}

/// The statistics of a product pool: the two sub-pools' statistics side by
/// side, separated by a tab when displayed.
#[derive(Clone)]
pub struct AndStats<S1, S2> {
    pub stats1: S1,
    pub stats2: S2,
}

impl<S1: Stats, S2: Stats> Stats for AndStats<S1, S2> {
    open spec fn spec_display(&self) -> Seq<char> {
        self.stats1.spec_display() + "\t"@ + self.stats2.spec_display()
    }

    fn display(&self) -> (r: String) {
        let first = self.stats1.display();
        let second = self.stats2.display();
        first.concat("\t").concat(second.as_str())
    }

    fn csv_headers(&self) -> (r: Vec<CSVField>) {
        let mut r = self.stats1.csv_headers();
        let mut second = self.stats2.csv_headers();
        r.append(&mut second);
        r
    }

    fn to_csv_record(&self) -> (r: Vec<CSVField>) {
        let mut r = self.stats1.to_csv_record();
        let mut second = self.stats2.to_csv_record();
        r.append(&mut second);
        r
    }
}

} // verus!

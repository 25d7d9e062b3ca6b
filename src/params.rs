use vstd::prelude::*;

verus! {

/// The words of a command line, as handed to the parser.
#[derive(Debug)]
pub struct Params {
    values: Vec<String>,
}

impl View for Params {
    type V = Seq<Seq<char>>;

    closed spec fn view(&self) -> Seq<Seq<char>> {
        self.values.deep_view()
    }
}

impl Params {
    pub fn new(values: Vec<String>) -> (r: Self)
        ensures
            r@ == values.deep_view(),
    {
        Params { values }
    }

    pub fn values(self) -> (r: Vec<String>)
        ensures
            r.deep_view() == self@,
    {
        self.values
    }
}

} // verus!

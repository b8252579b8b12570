//! The estimation scales a room can offer: a fixed, statically enumerated
//! catalog. Each scale has an internal key, a display label, and an ordered
//! list of vote-value labels, the last of which is a "no vote" marker.

use vstd::prelude::*;

verus! {

/// Mathematical image of a scale.
pub ghost struct ScaleView {
    pub name: Seq<char>,
    pub display_name: Seq<char>,
    pub values: Seq<Seq<char>>,
}

/// The images of a sequence of scales, in order.
pub open spec fn scale_seq_view(s: Seq<Scale>) -> Seq<ScaleView> {
    s.map_values(|x: Scale| x@)
}

pub struct Scale {
    pub name: String,
    pub display_name: String,
    pub values: Vec<String>,
}

impl View for Scale {
    type V = ScaleView;

    open spec fn view(&self) -> ScaleView {
        ScaleView {
            name: self.name@,
            display_name: self.display_name@,
            values: self.values@.map_values(|v: String| v@),
        }
    }
}

impl Clone for Scale {
    fn clone(&self) -> (res: Self)
        ensures
            res@ == self@,
    {
        let values = self.values.clone();
        proof {
            assert(values@ =~= self.values@);
            assert(values@.map_values(|v: String| v@) =~= self.values@.map_values(
                |v: String| v@,
            ));
        }
        Scale { name: self.name.clone(), display_name: self.display_name.clone(), values }
    }
}

/// The catalog every room is built with. Extending the supported scales means
/// extending this one function and its executable twin below.
pub open spec fn spec_scale_catalog() -> Seq<ScaleView> {
    seq![
        ScaleView {
            name: "fibonacci"@,
            display_name: "Fibonacci"@,
            values: seq!["0"@, "1"@, "2"@, "3"@, "5"@, "8"@, "13"@, "NV"@],
        },
        ScaleView {
            name: "fistOfFive"@,
            display_name: "FistOfFive"@,
            values: seq!["1"@, "2"@, "3"@, "4"@, "5"@, "NV"@],
        },
    ]
}

/// The key every room starts on.
pub open spec fn spec_default_scale_name() -> Seq<char> {
    "fibonacci"@
}

/// Some scale in the catalog carries this key.
pub open spec fn has_scale(scales: Seq<ScaleView>, name: Seq<char>) -> bool {
    exists|i: int| 0 <= i < scales.len() && scales[i].name == name
}

/// The position of the scale carrying the key (meaningful when the keys are
/// distinct and the scale exists).
pub open spec fn scale_index(scales: Seq<ScaleView>, name: Seq<char>) -> int {
    choose|i: int| 0 <= i < scales.len() && scales[i].name == name
}

/// The catalog keys are pairwise distinct, so a key picks one scale.
pub proof fn lemma_catalog_distinct()
    ensures
        forall|i: int, j: int|
            0 <= i < j < spec_scale_catalog().len() ==> spec_scale_catalog()[i].name
                != spec_scale_catalog()[j].name,
{
    reveal_strlit("fibonacci");
    reveal_strlit("fistOfFive");
    assert("fibonacci"@.len() == 9);
    assert("fistOfFive"@.len() == 10);
}

/// Builds the executable catalog; its image is `spec_scale_catalog`.
pub fn scale_catalog() -> (r: Vec<Scale>)
    ensures
        r@.len() == spec_scale_catalog().len(),
        forall|i: int| 0 <= i < r@.len() ==> r@[i]@ == spec_scale_catalog()[i],
{
    let mut fib_values: Vec<String> = Vec::new();
    fib_values.push("0".to_owned());
    fib_values.push("1".to_owned());
    fib_values.push("2".to_owned());
    fib_values.push("3".to_owned());
    fib_values.push("5".to_owned());
    fib_values.push("8".to_owned());
    fib_values.push("13".to_owned());
    fib_values.push("NV".to_owned());
    let fibonacci = Scale {
        name: "fibonacci".to_owned(),
        display_name: "Fibonacci".to_owned(),
        values: fib_values,
    };
    let mut fof_values: Vec<String> = Vec::new();
    fof_values.push("1".to_owned());
    fof_values.push("2".to_owned());
    fof_values.push("3".to_owned());
    fof_values.push("4".to_owned());
    fof_values.push("5".to_owned());
    fof_values.push("NV".to_owned());
    let fist_of_five = Scale {
        name: "fistOfFive".to_owned(),
        display_name: "FistOfFive".to_owned(),
        values: fof_values,
    };
    let mut r: Vec<Scale> = Vec::new();
    r.push(fibonacci);
    r.push(fist_of_five);
    proof {
        assert(r@[0]@.values =~= spec_scale_catalog()[0].values);
        assert(r@[1]@.values =~= spec_scale_catalog()[1].values);
        assert(r@[0]@ == spec_scale_catalog()[0]);
        assert(r@[1]@ == spec_scale_catalog()[1]);
    }
    r
}

} // verus!

//! The display form of runtime values: what the console natives print,
//! joined pair by pair for objects and element by element for arrays.
use vstd::prelude::*;

use crate::num::{apf_to_string, num_string};
use crate::value::{spec_pair_view, spec_pairs_view, spec_values_view, SpecValue, ZanoValue};

verus! {

broadcast use vstd::seq::group_seq_axioms, vstd::std_specs::vec::group_vec_axioms;

/// The display text of a value: strings verbatim, numbers in decimal,
/// arrays bracketed and objects braced with their parts joined by commas,
/// and a function value as `function` and its name reference.
pub open spec fn spec_display(v: SpecValue) -> Seq<char>
    decreases v,
{
    match v {
        SpecValue::Undefined => "undefined"@,
        SpecValue::Null => "null"@,
        SpecValue::Boolean(b) => if b {
            "true"@
        } else {
            "false"@
        },
        SpecValue::Number(n) => num_string(n),
        SpecValue::String(s) => s,
        SpecValue::Object(ps) => "{"@ + spec_display_pairs(ps) + "}"@,
        SpecValue::Array(els) => "["@ + spec_display_items(els) + "]"@,
        SpecValue::Function(n) => "function "@ + n,
    }
}

/// The display texts of array elements, joined by commas.
pub open spec fn spec_display_items(els: Seq<SpecValue>) -> Seq<char>
    decreases els,
{
    if els.len() == 0 {
        Seq::empty()
    } else if els.len() == 1 {
        spec_display(els[0])
    } else {
        spec_display(els[0]) + ", "@ + spec_display_items(els.drop_first())
    }
}

/// The display texts of object entries, joined by commas.
pub open spec fn spec_display_pairs(ps: Seq<(Seq<char>, SpecValue)>) -> Seq<char>
    decreases ps,
{
    if ps.len() == 0 {
        Seq::empty()
    } else if ps.len() == 1 {
        spec_display_pair(ps[0])
    } else {
        spec_display_pair(ps[0]) + ", "@ + spec_display_pairs(ps.drop_first())
    }
}

/// The display text of one object entry: the key, a colon, the value.
pub open spec fn spec_display_pair(p: (Seq<char>, SpecValue)) -> Seq<char>
    decreases p,
{
    p.0 + ": "@ + spec_display(p.1)
}

/// The display text of a value.
pub fn zano_value_to_string(value: &ZanoValue) -> (r: String)
    ensures
        r@ == spec_display(value@),
    decreases *value, 0int,
{
    match value {
        ZanoValue::Undefined => "undefined".to_owned(),
        ZanoValue::Null => "null".to_owned(),
        ZanoValue::Boolean(b) => if *b {
            "true".to_owned()
        } else {
            "false".to_owned()
        },
        ZanoValue::Number(n) => apf_to_string(*n),
        ZanoValue::String(s) => s.clone(),
        ZanoValue::Object(ps) => {
            let mut out = "{".to_owned();
            let inner = display_pairs(ps, 0);
            proof {
                assert(spec_pairs_view(ps@).skip(0) =~= spec_pairs_view(ps@));
            }
            out.append(inner.as_str());
            out.append("}");
            out
        },
        ZanoValue::Array(els) => {
            let mut out = "[".to_owned();
            let inner = display_values(els, 0);
            proof {
                assert(spec_values_view(els@).skip(0) =~= spec_values_view(els@));
            }
            out.append(inner.as_str());
            out.append("]");
            out
        },
        ZanoValue::Function(n) => {
            let mut out = "function ".to_owned();
            out.append(n.as_str());
            out
        },
    }
}

/// The display texts of the elements of `els` from `from` on, joined by
/// commas.
fn display_values(els: &Vec<ZanoValue>, from: usize) -> (r: String)
    requires
        from <= els@.len(),
    ensures
        r@ == spec_display_items(spec_values_view(els@).skip(from as int)),
    decreases *els, els@.len() - from,
{
    broadcast use crate::value::group_view_lemmas;

    let ghost tail = spec_values_view(els@).skip(from as int);
    if from >= els.len() {
        proof {
            assert(tail =~= Seq::<SpecValue>::empty());
        }
        String::new()
    } else {
        proof {
            assert(tail[0] == spec_values_view(els@)[from as int]);
        }
        let head = zano_value_to_string(&els[from]);
        if from + 1 >= els.len() {
            proof {
                assert(tail.len() == 1);
            }
            head
        } else {
            proof {
                assert(tail.drop_first() =~= spec_values_view(els@).skip(from as int + 1));
            }
            let mut out = head;
            out.append(", ");
            let rest = display_values(els, from + 1);
            out.append(rest.as_str());
            out
        }
    }
}

/// The display texts of the entries of `ps` from `from` on, joined by
/// commas.
fn display_pairs(ps: &Vec<(String, ZanoValue)>, from: usize) -> (r: String)
    requires
        from <= ps@.len(),
    ensures
        r@ == spec_display_pairs(spec_pairs_view(ps@).skip(from as int)),
    decreases *ps, ps@.len() - from,
{
    broadcast use crate::value::group_view_lemmas;

    let ghost tail = spec_pairs_view(ps@).skip(from as int);
    if from >= ps.len() {
        proof {
            assert(tail =~= Seq::<(Seq<char>, SpecValue)>::empty());
        }
        String::new()
    } else {
        proof {
            assert(tail[0] == spec_pairs_view(ps@)[from as int]);
        }
        let head = display_pair(&ps[from]);
        if from + 1 >= ps.len() {
            proof {
                assert(tail.len() == 1);
            }
            head
        } else {
            proof {
                assert(tail.drop_first() =~= spec_pairs_view(ps@).skip(from as int + 1));
            }
            let mut out = head;
            out.append(", ");
            let rest = display_pairs(ps, from + 1);
            out.append(rest.as_str());
            out
        }
    }
}

/// The text of one console line: the display texts of the arguments,
/// joined by single spaces.
pub open spec fn spec_console_line(args: Seq<SpecValue>) -> Seq<char>
    decreases args,
{
    if args.len() == 0 {
        Seq::empty()
    } else if args.len() == 1 {
        spec_display(args[0])
    } else {
        spec_display(args[0]) + " "@ + spec_console_line(args.drop_first())
    }
}

/// Formats the arguments of a console native into the line it prints.
pub fn console_line(args: &Vec<ZanoValue>) -> (r: String)
    ensures
        r@ == spec_console_line(spec_values_view(args@)),
{
    proof {
        assert(spec_values_view(args@).skip(0) =~= spec_values_view(args@));
    }
    console_line_from(args, 0)
}

/// The console line of the arguments from `from` on.
fn console_line_from(args: &Vec<ZanoValue>, from: usize) -> (r: String)
    requires
        from <= args@.len(),
    ensures
        r@ == spec_console_line(spec_values_view(args@).skip(from as int)),
    decreases args@.len() - from,
{
    broadcast use crate::value::group_view_lemmas;

    let ghost tail = spec_values_view(args@).skip(from as int);
    if from >= args.len() {
        proof {
            assert(tail =~= Seq::<SpecValue>::empty());
        }
        String::new()
    } else {
        proof {
            assert(tail[0] == spec_values_view(args@)[from as int]);
        }
        let head = zano_value_to_string(&args[from]);
        if from + 1 >= args.len() {
            proof {
                assert(tail.len() == 1);
            }
            head
        } else {
            proof {
                assert(tail.drop_first() =~= spec_values_view(args@).skip(from as int + 1));
            }
            let mut out = head;
            out.append(" ");
            let rest = console_line_from(args, from + 1);
            out.append(rest.as_str());
            out
        }
    }
}

/// The display text of one object entry.
fn display_pair(p: &(String, ZanoValue)) -> (r: String)
    ensures
        r@ == spec_display_pair(spec_pair_view(*p)),
    decreases *p, 0int,
{
    let mut out = p.0.clone();
    out.append(": ");
    let v = zano_value_to_string(&p.1);
    out.append(v.as_str());
    out
}

} // verus!

//! JSON text for external representations, through serde_json.
//!
//! The external representation of a value is JSON-compatible, and its
//! canonical text is what `serde_json` renders: `null`, `true`/`false`,
//! the decimal text of a number, the escaped quoted text of a string, and
//! arrays framed by brackets with comma-separated elements and no
//! whitespace.  The two leaf renderings that take pages to state —
//! decimal text and string escaping — are named ([`json_int_text`],
//! [`json_string_text`]) and provided by serde_json; the rest is defined
//! and computed here.

use crate::value::{
    ext_view, ext_views, lemma_ext_views_index, ExtView, ExternalValue,
};
use vstd::prelude::*;
use vstd::string::StringExecFns;

verus! {

/// The decimal text serde_json renders for a 64-bit integer.
pub uninterp spec fn json_int_text(i: i64) -> Seq<char>;

/// The quoted, escaped text serde_json renders for a string.
pub uninterp spec fn json_string_text(s: Seq<char>) -> Seq<char>;

/// The canonical JSON text of an external representation.
pub open spec fn json_text_of(v: ExtView) -> Seq<char>
    decreases v,
{
    match v {
        ExtView::Null => "null"@,
        ExtView::Boolean(b) => if b {
            "true"@
        } else {
            "false"@
        },
        ExtView::Integer(i) => json_int_text(i),
        ExtView::Text(s) => json_string_text(s),
        ExtView::Array(items) => "["@ + join_texts(items) + "]"@,
    }
}

/// The comma-separated element texts of a JSON array.
pub open spec fn join_texts(items: Seq<ExtView>) -> Seq<char>
    decreases items,
{
    if items.len() == 0 {
        Seq::empty()
    } else if items.len() == 1 {
        json_text_of(items[0])
    } else {
        join_texts(items.drop_last()) + ","@ + json_text_of(items.last())
    }
}

/// Relies on `serde_json::Number::to_string`: the decimal text of `i`,
/// a function of `i` alone.
#[verifier::external_body]
fn json_int(i: i64) -> (r: String)
    ensures
        r@ == json_int_text(i),
{
    serde_json::Number::from(i).to_string()
}

/// Relies on serde_json's rendering of a JSON string value: the quoted,
/// escaped text of `s`, a function of the characters alone.
#[verifier::external_body]
fn json_str(s: &String) -> (r: String)
    ensures
        r@ == json_string_text(s@),
{
    serde_json::Value::String(s.clone()).to_string()
}

/// The canonical JSON text of an external representation.
pub fn json_text(v: &ExternalValue) -> (r: String)
    ensures
        r@ == json_text_of(v@),
    decreases ext_view(*v),
{
    match v {
        ExternalValue::Null => String::from_str("null"),
        ExternalValue::Boolean(b) => {
            if *b {
                String::from_str("true")
            } else {
                String::from_str("false")
            }
        },
        ExternalValue::Integer(i) => json_int(*i),
        ExternalValue::Text(s) => json_str(s),
        ExternalValue::Array(items) => {
            let n = items.len();
            let mut out = String::from_str("[");
            let mut i: usize = 0;
            proof {
                lemma_ext_views_index(items@);
            }
            while i < n
                invariant
                    i <= n,
                    n == items@.len(),
                    out@ == "["@ + join_texts(ext_views(items@).take(i as int)),
                decreases n - i,
            {
                if i > 0 {
                    out.append(",");
                }
                proof {
                    let x = ext_view(*v);
                    let ev = ext_views(items@);
                    assert(decreases_to!(x => x->Array_0));
                    assert(x->Array_0 == ev);
                    assert(decreases_to!(ev => ev[i as int]));
                    assert(decreases_to!(x => ext_view(items@[i as int])));
                }
                let t = json_text(&items[i]);
                out.append(t.as_str());
                proof {
                    let ev = ext_views(items@);
                    assert(ev.take(i as int + 1).drop_last() =~= ev.take(i as int));
                    assert(ev.take(i as int + 1).last() == ev[i as int]);
                    if i == 0 {
                        assert(out@ =~= "["@ + join_texts(ev.take(1)));
                    } else {
                        assert(out@ =~= "["@ + join_texts(ev.take(i as int + 1)));
                    }
                }
                i = i + 1;
            }
            out.append("]");
            proof {
                assert(ext_views(items@).take(n as int) =~= ext_views(items@));
                assert(out@ =~= "["@ + join_texts(ext_views(items@)) + "]"@);
            }
            out
        },
    }
}

} // verus!

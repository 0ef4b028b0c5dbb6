use vstd::prelude::*;

verus! {

use crate::codec::{json_quote, json_string_literal};
use crate::text::seq_lt;

/// One member of a JSON object: the quoted key, `:`, and the value's JSON text.
pub open spec fn json_member(key: Seq<char>, value_json: Seq<char>) -> Seq<char> {
    json_string_literal(key) + seq![':'] + value_json
}

/// The members of a JSON object, in the given order, separated by commas.
pub open spec fn json_members(fields: Seq<(Seq<char>, Seq<char>)>) -> Seq<char>
    decreases fields.len(),
{
    if fields.len() == 0 {
        seq![]
    } else if fields.len() == 1 {
        json_member(fields[0].0, fields[0].1)
    } else {
        json_members(fields.drop_last()) + seq![','] + json_member(
            fields.last().0,
            fields.last().1,
        )
    }
}

/// The members' keys ascend strictly in character order: the order in which
/// `serde_json` writes the members of an object, whose map is sorted by key.
pub open spec fn keys_ascending(fields: Seq<(Seq<char>, Seq<char>)>) -> bool {
    forall|i: int| 0 <= i < fields.len() - 1 ==> seq_lt(fields[i].0, #[trigger] fields[i + 1].0)
}

/// The compact JSON text of an object with the given members (key, value's
/// JSON text), as `serde_json` writes it: no spaces, members in the given
/// order, which for `serde_json` is ascending key order.
pub open spec fn json_object(fields: Seq<(Seq<char>, Seq<char>)>) -> Seq<char> {
    seq!['{'] + json_members(fields) + seq!['}']
}

/// Writes a JSON object from its members, given in ascending key order as
/// `serde_json` writes them: each key is quoted and escaped, each value is
/// already JSON text.
pub fn json_object_text(fields: &Vec<(String, String)>) -> (r: String)
    requires
        keys_ascending(fields.deep_view()),
    ensures
        r@ == json_object(fields.deep_view()),
{
    let mut body = String::new();
    let mut i: usize = 0;
    let ghost dv = fields.deep_view();
    while i < fields.len()
        invariant
            i <= fields@.len(),
            dv == fields.deep_view(),
            body@ == json_members(dv.subrange(0, i as int)),
        decreases fields@.len() - i,
    {
        let key = json_quote(fields[i].0.as_str());
        if i > 0 {
            body.append(",");
        }
        body.append(key.as_str());
        body.append(":");
        body.append(fields[i].1.as_str());
        proof {
            reveal_strlit(",");
            reveal_strlit(":");
            let s = dv.subrange(0, i + 1);
            assert(s.drop_last() =~= dv.subrange(0, i as int));
            assert(dv[i as int] == (fields@[i as int].0@, fields@[i as int].1@));
            assert(body@ =~= json_members(s));
        }
        i = i + 1;
    }
    assert(dv.subrange(0, fields@.len() as int) =~= dv);
    let mut r = String::new();
    r.append("{");
    r.append(body.as_str());
    r.append("}");
    proof {
        reveal_strlit("{");
        reveal_strlit("}");
    }
    assert(r@ =~= json_object(dv));
    r
}

} // verus!

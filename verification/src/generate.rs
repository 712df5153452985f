use vstd::prelude::*;
use vstd::string::StringExecFns;
use crate::lines::spec_lines;
use crate::lines::split_lines;

verus! {

/// What one line of a generate-endpoint body contributes: the text of its
/// `response` field if the line is a JSON document carrying one as a string,
/// and nothing otherwise. The outcome depends on the line's characters alone.
pub uninterp spec fn line_fragment(line: Seq<char>) -> Option<Seq<char>>;

/// Relies on serde_json::from_str, Value::get and Value::as_str: a line
/// either parses as a JSON document with a string `response` field, whose
/// text comes back, or contributes nothing; which of the two, and the text,
/// are a function of the line's characters alone.
#[verifier::external_body]
fn extract_fragment(line: &str) -> (res: Option<String>)
    ensures
        res.deep_view() == line_fragment(line@),
{
    let value = serde_json::from_str::<serde_json::Value>(line).ok()?;
    Some(value.get("response")?.as_str()?.to_owned())
}

/// The text a fragment contributes to the aggregate: nothing for a line
/// that parses wrongly or has no `response` string.
pub open spec fn fragment_text(f: Option<Seq<char>>) -> Seq<char> {
    match f {
        Some(t) => t,
        None => Seq::<char>::empty(),
    }
}

/// The ordered concatenation, without separator, of every line's fragment.
pub open spec fn concat_fragments(lines: Seq<Seq<char>>) -> Seq<char>
    decreases lines.len(),
{
    if lines.len() == 0 {
        Seq::<char>::empty()
    } else {
        fragment_text(line_fragment(lines.first())) + concat_fragments(lines.drop_first())
    }
}

/// Aggregates a generate-endpoint body: the body is split into lines, and
/// the `response` fragments of the lines that carry one are concatenated in
/// line order. Malformed lines and lines without the field are skipped, so
/// an empty body yields an empty answer rather than an error.
pub fn generate_from_body(body: &str) -> (res: String)
    ensures
        res@ == concat_fragments(spec_lines(body@)),
        body@.len() == 0 ==> res@ == Seq::<char>::empty(),
{
    let lines = split_lines(body);
    let ghost lv = lines.deep_view();
    let mut res = String::new();
    let mut i: usize = 0;
    proof {
        assert(lv.skip(0) =~= lv);
        assert(res@ + concat_fragments(lv) =~= concat_fragments(lv));
    }
    while i < lines.len()
        invariant
            lv == lines.deep_view(),
            lv == spec_lines(body@),
            i <= lines.len(),
            lines.len() == lv.len(),
            concat_fragments(lv) == res@ + concat_fragments(lv.skip(i as int)),
        decreases lines.len() - i,
    {
        let ghost rest = lv.skip(i as int);
        let ghost res0 = res@;
        proof {
            assert(rest.first() == lv[i as int]);
            assert(lv[i as int] == lines@[i as int]@);
            assert(rest.drop_first() =~= lv.skip(i + 1));
        }
        match extract_fragment(lines[i].as_str()) {
            Some(t) => {
                res.append(t.as_str());
                proof {
                    assert(line_fragment(lines@[i as int]@) == Some(t@));
                    assert(res@ =~= res0 + fragment_text(line_fragment(rest.first())));
                }
            },
            None => {
                proof {
                    assert(line_fragment(lines@[i as int]@) is None);
                    assert(res@ =~= res0 + fragment_text(line_fragment(rest.first())));
                }
            },
        }
        proof {
            assert(concat_fragments(rest) == fragment_text(line_fragment(rest.first()))
                + concat_fragments(lv.skip(i + 1)));
            assert(res0 + concat_fragments(rest) =~= res@ + concat_fragments(lv.skip(i + 1)));
        }
        i += 1;
    }
    proof {
        assert(lv.skip(lines.len() as int) =~= Seq::<Seq<char>>::empty());
        assert(res@ =~= concat_fragments(lv));
        if body@.len() == 0 {
            assert(spec_lines(body@) =~= Seq::<Seq<char>>::empty());
        }
    }
    res
}

} // verus!

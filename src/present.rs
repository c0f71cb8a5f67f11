use vstd::prelude::*;
use crate::model::{ExpandedMergeRequests, RecordView, records_view};
use crate::text::{decimal, pad_left, push_decimal, push_padded_decimal, signed_decimal};

verus! {

/// `{idx:3}: [{group}/{project}] {title}`
pub open spec fn list_line_of(idx: nat, r: RecordView) -> Seq<char> {
    pad_left(decimal(idx), 3) + ": ["@ + r.group_name + "/"@ + r.project_name + "] "@ + r.title
}

/// `[{group}/{project}] {title} - @{author}`
pub open spec fn detail_line_of(r: RecordView) -> Seq<char> {
    "["@ + r.group_name + "/"@ + r.project_name + "] "@ + r.title + " - @"@ + r.author
}

/// `     {web_url}`
pub open spec fn url_line_of(r: RecordView) -> Seq<char> {
    "     "@ + r.web_url
}

/// `Invalid merge request: {idx} is larger than {len - 1}`
pub open spec fn invalid_index_of(idx: nat, len: nat) -> Seq<char> {
    "Invalid merge request: "@ + decimal(idx) + " is larger than "@ + signed_decimal(len - 1)
}

/// What showing the records prints: the lines for the standard output and
/// the lines for the error stream.
pub open spec fn show_output(rs: Seq<RecordView>, idx: Option<usize>) -> (Seq<Seq<char>>, Seq<Seq<char>>) {
    match idx {
        None => (Seq::new(rs.len(), |i: int| list_line_of(i as nat, rs[i])), seq![]),
        Some(i) => if i < rs.len() {
            (seq![detail_line_of(rs[i as int]), url_line_of(rs[i as int])], seq![])
        } else {
            (seq![], seq![invalid_index_of(i as nat, rs.len())])
        },
    }
}

/// The text of a sequence of lines.
pub open spec fn lines_view(ls: Seq<String>) -> Seq<Seq<char>> {
    ls.map_values(|l: String| l@)
}

/// The lines that a command prints, by stream.
pub struct Report {
    pub out: Vec<String>,
    pub err: Vec<String>,
}

/// The line that lists record `idx`.
pub fn list_line(idx: usize, r: &ExpandedMergeRequests) -> (s: String)
    ensures
        s@ == list_line_of(idx as nat, r@),
{
    let mut s = String::new();
    push_padded_decimal(&mut s, idx, 3);
    s.append(": [");
    s.append(r.group_name.as_str());
    s.append("/");
    s.append(r.project_name.as_str());
    s.append("] ");
    s.append(r.title.as_str());
    proof {
        assert(s@ =~= list_line_of(idx as nat, r@));
    }
    s
}

/// The first line of a record's details.
pub fn detail_line(r: &ExpandedMergeRequests) -> (s: String)
    ensures
        s@ == detail_line_of(r@),
{
    let mut s = String::new();
    s.append("[");
    s.append(r.group_name.as_str());
    s.append("/");
    s.append(r.project_name.as_str());
    s.append("] ");
    s.append(r.title.as_str());
    s.append(" - @");
    s.append(r.author.username.as_str());
    proof {
        assert(s@ =~= detail_line_of(r@));
    }
    s
}

/// The second line of a record's details.
pub fn url_line(r: &ExpandedMergeRequests) -> (s: String)
    ensures
        s@ == url_line_of(r@),
{
    let mut s = String::new();
    s.append("     ");
    s.append(r.web_url.as_str());
    proof {
        assert(s@ =~= url_line_of(r@));
    }
    s
}

/// The report of an index past the last record.
pub fn invalid_index(idx: usize, len: usize) -> (s: String)
    ensures
        s@ == invalid_index_of(idx as nat, len as nat),
{
    let mut s = String::new();
    s.append("Invalid merge request: ");
    push_decimal(&mut s, idx);
    s.append(" is larger than ");
    if len == 0 {
        s.append("-1");
        proof {
            reveal_strlit("-1");
            assert(signed_decimal(-1) =~= "-1"@);
        }
    } else {
        push_decimal(&mut s, len - 1);
    }
    proof {
        assert(s@ =~= invalid_index_of(idx as nat, len as nat));
    }
    s
}

/// Shows the records: with no index, one line per record in order; with
/// an index of a record, its two detail lines; with an index past the last
/// record, a report on the error stream.
pub fn show(records: &Vec<ExpandedMergeRequests>, idx: Option<usize>) -> (r: Report)
    ensures
        (lines_view(r.out@), lines_view(r.err@)) == show_output(records_view(records@), idx),
{
    let ghost rs = records_view(records@);
    let mut out: Vec<String> = Vec::new();
    let mut err: Vec<String> = Vec::new();
    match idx {
        None => {
            let mut i: usize = 0;
            while i < records.len()
                invariant
                    i <= records.len(),
                    rs == records_view(records@),
                    err@.len() == 0,
                    lines_view(out@) == Seq::new(i as nat, |k: int| list_line_of(k as nat, rs[k])),
                decreases records.len() - i,
            {
                let line = list_line(i, &records[i]);
                let ghost old_out = out@;
                out.push(line);
                proof {
                    assert(rs[i as int] == records@[i as int]@);
                    assert(lines_view(out@) =~= lines_view(old_out).push(list_line_of(i as nat, rs[i as int])));
                    assert(lines_view(out@) =~= Seq::new((i + 1) as nat, |k: int| list_line_of(k as nat, rs[k])));
                }
                i = i + 1;
            }
            proof {
                assert(lines_view(err@) =~= Seq::<Seq<char>>::empty());
            }
        },
        Some(i) => {
            if i < records.len() {
                out.push(detail_line(&records[i]));
                out.push(url_line(&records[i]));
                proof {
                    assert(lines_view(out@) =~= seq![detail_line_of(rs[i as int]), url_line_of(rs[i as int])]);
                }
            } else {
                err.push(invalid_index(i, records.len()));
                proof {
                    assert(lines_view(err@) =~= seq![invalid_index_of(i as nat, rs.len())]);
                }
            }
            proof {
                assert(lines_view(out@).len() == 0 ==> lines_view(out@) =~= Seq::<Seq<char>>::empty());
                assert(lines_view(err@).len() == 0 ==> lines_view(err@) =~= Seq::<Seq<char>>::empty());
            }
        },
    }
    Report { out, err }
}

} // verus!

//! The access-point resolve answer: the endpoint lists the resolver returns,
//! and the selection of entries on the dedicated access-point port. Fetching
//! and JSON decoding stay with the caller; this holds the decoded values.
use vstd::prelude::*;
use vstd::string::StrSliceExecFns;

verus! {

/// The endpoint lists an access-point resolve answer carries, as
/// `host:port` strings.
pub struct ApResolveData {
    pub accesspoint: Vec<String>,
}

/// Whether an endpoint string names the access-point port: it ends in
/// `":4070"`.
pub open spec fn ends_with_4070(s: Seq<char>) -> bool {
    s.len() >= 5 && s.subrange(s.len() - 5, s.len() as int) == ":4070"@
}

/// The selection predicate, as a value `Seq::filter` can take.
pub open spec fn port_4070_pred() -> spec_fn(Seq<char>) -> bool {
    |s: Seq<char>| ends_with_4070(s)
}

/// Whether one endpoint string ends in `":4070"`.
fn ends_with_port_4070(s: &String) -> (r: bool)
    ensures
        r == ends_with_4070(s@),
{
    proof {
        reveal_strlit(":4070");
    }
    let st = s.as_str();
    let n = st.unicode_len();
    if n < 5 {
        return false;
    }
    let r = st.get_char(n - 5) == ':' && st.get_char(n - 4) == '4' && st.get_char(n - 3) == '0'
        && st.get_char(n - 2) == '7' && st.get_char(n - 1) == '0';
    proof {
        let sub = s@.subrange(s@.len() - 5, s@.len() as int);
        if r {
            assert(sub =~= ":4070"@);
        } else {
            assert(sub.len() == 5);
            assert(sub[0] == s@[s@.len() - 5]);
            assert(sub[1] == s@[s@.len() - 4]);
            assert(sub[2] == s@[s@.len() - 3]);
            assert(sub[3] == s@[s@.len() - 2]);
            assert(sub[4] == s@[s@.len() - 1]);
        }
    }
    r
}

impl ApResolveData {
    /// The access-point entries on port 4070, in their original order.
    pub fn accesspoint_4070(&self) -> (r: Vec<String>)
        ensures
            r.deep_view() == self.accesspoint.deep_view().filter(port_4070_pred()),
    {
        let ghost all = self.accesspoint.deep_view();
        let mut r: Vec<String> = Vec::new();
        let n = self.accesspoint.len();
        proof {
            reveal_with_fuel(Seq::<_>::filter, 1);
            assert(all.take(0) =~= Seq::<Seq<char>>::empty());
            assert(r.deep_view() =~= all.take(0).filter(port_4070_pred()));
        }
        for idx in 0..n
            invariant
                n == self.accesspoint@.len(),
                all == self.accesspoint.deep_view(),
                r.deep_view() == all.take(idx as int).filter(port_4070_pred()),
        {
            let ghost prev = r.deep_view();
            let s = &self.accesspoint[idx];
            if ends_with_port_4070(s) {
                r.push(s.clone());
                assert(r.deep_view() =~= prev.push(s@));
            }
            proof {
                reveal(Seq::<_>::filter);
                assert(all.take(idx + 1).drop_last() =~= all.take(idx as int));
                assert(all.take(idx + 1).last() == all[idx as int]);
                assert(all[idx as int] == self.accesspoint@[idx as int].deep_view());
            }
        }
        proof {
            assert(all.take(n as int) =~= all);
        }
        r
    }
}

} // verus!

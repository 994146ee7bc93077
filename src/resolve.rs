//! Choosing one address among those a host name resolves to.
use vstd::prelude::*;

verus! {

/// An IP address as its numeric value.
#[derive(Clone, Copy, Debug, PartialEq, Eq, Structural)]
pub enum IpAddress {
    V4(u32),
    V6(u128),
}

#[derive(Clone, Copy, Debug, PartialEq, Eq, Structural)]
pub enum ResolutionError {
    /// No candidate address of a supported family.
    NoAddress,
}

/// Where probes are sent: the host as given, the address it resolved to,
/// and the port.
#[derive(Clone, Debug)]
pub struct ProbeTarget {
    pub host: String,
    pub address: IpAddress,
    pub port: u16,
}

pub open spec fn has_v4(s: Seq<IpAddress>) -> bool {
    exists|i: int| 0 <= i < s.len() && s[i] is V4
}

/// The address to use: the first IPv4 candidate, else the last candidate
/// (then all are IPv6), else none.
pub open spec fn preferred(s: Seq<IpAddress>) -> Result<IpAddress, ResolutionError> {
    if has_v4(s) {
        let k = choose|k: int|
            0 <= k < s.len() && s[k] is V4 && forall|j: int| 0 <= j < k ==> s[j] is V6;
        Ok(s[k])
    } else if s.len() > 0 {
        Ok(s.last())
    } else {
        Err(ResolutionError::NoAddress)
    }
}

/// Picks the address to probe among the resolved candidates, in the order
/// the resolver gave them.
pub fn select_address(candidates: &Vec<IpAddress>) -> (r: Result<IpAddress, ResolutionError>)
    ensures
        r == preferred(candidates@),
{
    let mut last_v6: Option<IpAddress> = None;
    let mut i: usize = 0;
    while i < candidates.len()
        invariant
            i <= candidates@.len(),
            forall|j: int| 0 <= j < i ==> candidates@[j] is V6,
            i == 0 ==> last_v6 is None,
            i > 0 ==> last_v6 == Some(candidates@[i - 1]),
        decreases candidates@.len() - i,
    {
        let a = candidates[i];
        match a {
            IpAddress::V4(_) => {
                assert(has_v4(candidates@));
                let ghost k = choose|k: int|
                    0 <= k < candidates@.len() && candidates@[k] is V4 && forall|j: int|
                        0 <= j < k ==> candidates@[j] is V6;
                assert(0 <= i < candidates@.len() && candidates@[i as int] is V4 && forall|j: int|
                    0 <= j < i ==> candidates@[j] is V6);
                assert(k == i) by {
                    if k < i {
                        assert(candidates@[k] is V6);
                    }
                    if k > i {
                        assert(candidates@[i as int] is V6);
                    }
                }
                return Ok(a);
            },
            IpAddress::V6(_) => {
                last_v6 = Some(a);
            },
        }
        i = i + 1;
    }
    match last_v6 {
        Some(a) => Ok(a),
        None => Err(ResolutionError::NoAddress),
    }
}

impl ProbeTarget {
    pub fn new(host: String, address: IpAddress, port: u16) -> (r: ProbeTarget)
        ensures
            r.host@ == host@,
            r.address == address,
            r.port == port,
    {
        ProbeTarget { host, address, port }
    }
}

/// With an IPv4 candidate anywhere among them, an IPv4 address is chosen.
pub proof fn lemma_prefers_v4(s: Seq<IpAddress>)
    requires
        has_v4(s),
    ensures
        preferred(s) is Ok,
        preferred(s)->Ok_0 is V4,
{
    let w = choose|w: int| 0 <= w < s.len() && s[w] is V4;
    lemma_first_v4_exists(s, w);
}

proof fn lemma_first_v4_exists(s: Seq<IpAddress>, w: int)
    requires
        0 <= w < s.len(),
        s[w] is V4,
    ensures
        exists|k: int| 0 <= k < s.len() && s[k] is V4 && forall|j: int| 0 <= j < k ==> s[j] is V6,
    decreases w,
{
    if exists|j: int| 0 <= j < w && s[j] is V4 {
        let j = choose|j: int| 0 <= j < w && s[j] is V4;
        lemma_first_v4_exists(s, j);
    } else {
        assert(forall|j: int| 0 <= j < w ==> s[j] is V6);
    }
}

/// With IPv6 candidates only, the last one is chosen.
pub proof fn lemma_v6_fallback(s: Seq<IpAddress>)
    requires
        s.len() > 0,
        forall|i: int| 0 <= i < s.len() ==> s[i] is V6,
    ensures
        preferred(s) == Ok::<IpAddress, ResolutionError>(s.last()),
{
    assert(!has_v4(s));
}

/// With no candidates, resolution fails.
pub proof fn lemma_no_candidates(s: Seq<IpAddress>)
    requires
        s.len() == 0,
    ensures
        preferred(s) == Err::<IpAddress, ResolutionError>(ResolutionError::NoAddress),
{
}

} // verus!

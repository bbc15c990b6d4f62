//! Rules for starting the listeners: one listener per port, and exactly one
//! private key per key file.
use vstd::prelude::*;

verus! {

/// No virtual host before `i` uses the port of virtual host `i`.
pub open spec fn first_of_port(ports: Seq<u16>, i: int) -> bool {
    forall|j: int| 0 <= j < i ==> ports[j] != ports[i]
}

/// The virtual hosts among the first `n` that open a listener: those whose
/// port no earlier host uses, in order.
pub open spec fn listening_hosts(ports: Seq<u16>, n: int) -> Seq<usize>
    decreases n,
{
    if n <= 0 {
        Seq::empty()
    } else if first_of_port(ports, n - 1) {
        listening_hosts(ports, n - 1).push((n - 1) as usize)
    } else {
        listening_hosts(ports, n - 1)
    }
}

/// Given the port of each virtual host, the hosts that open a listener.
pub fn listen_plan(ports: &Vec<u16>) -> (r: Vec<usize>)
    ensures
        r@ == listening_hosts(ports@, ports@.len() as int),
{
    let mut r: Vec<usize> = Vec::new();
    let mut i: usize = 0;
    while i < ports.len()
        invariant
            i <= ports@.len(),
            r@ == listening_hosts(ports@, i as int),
        decreases ports@.len() - i,
    {
        let mut j: usize = 0;
        let mut seen = false;
        while j < i
            invariant
                j <= i,
                i < ports@.len(),
                seen == exists|k: int| 0 <= k < j && ports@[k] == ports@[i as int],
            decreases i - j,
        {
            if ports[j] == ports[i] {
                seen = true;
            }
            j = j + 1;
        }
        if !seen {
            r.push(i);
        }
        i = i + 1;
    }
    r
}

/// Why a key file gave no usable key.
#[derive(Debug, Clone, Copy, PartialEq, Eq, Structural)]
pub enum KeyCount {
    NoKey,
    ManyKeys,
}

/// The one key read from a key file; none, or more than one, is refused.
pub fn single_key<T>(keys: Vec<T>) -> (r: Result<T, KeyCount>)
    ensures
        keys@.len() == 0 ==> r == Err::<T, KeyCount>(KeyCount::NoKey),
        keys@.len() == 1 ==> r == Ok::<T, KeyCount>(keys@[0]),
        keys@.len() > 1 ==> r == Err::<T, KeyCount>(KeyCount::ManyKeys),
{
    let mut keys = keys;
    if keys.len() == 0 {
        Err(KeyCount::NoKey)
    } else if keys.len() == 1 {
        Ok(keys.remove(0))
    } else {
        Err(KeyCount::ManyKeys)
    }
}

} // verus!

//! The name under which this client shows itself to peers.
use vstd::prelude::*;

verus! {

/// One step of the generator.
pub open spec fn stirred(x: u64) -> u64 {
    let a = x ^ (x << 13u64);
    let b = a ^ (a >> 7u64);
    b ^ (b << 17u64)
}

/// Some steps of the generator.
pub open spec fn stirred_times(x: u64, steps: nat) -> u64
    decreases steps,
{
    if steps == 0 {
        x
    } else {
        stirred(stirred_times(x, (steps - 1) as nat))
    }
}

/// What the generator starts from: the time, and the process in the upper half.
pub open spec fn peer_seed(nanos: Option<u64>, process: u32) -> u64 {
    nanos.unwrap_or(0x5a17_cafe) ^ ((process as u64) << 32u64)
}

/// The client's prefix.
pub open spec fn client_prefix() -> Seq<u8> {
    seq![45u8, 83u8, 87u8, 48u8, 48u8, 48u8, 49u8, 45u8]
}

fn stir(x: u64) -> (next: u64)
    ensures
        next == stirred(x),
{
    let a: u64 = x ^ (x << 13u64);
    let b: u64 = a ^ (a >> 7u64);
    b ^ (b << 17u64)
}

/// A name for this client: its prefix, then bytes made from the time in nanoseconds, if the clock
/// gives one, and the number of the process.
pub fn make_peer_id(nanos: Option<u64>, process: u32) -> (id: [u8; 20])
    ensures
        id@.take(8) == client_prefix(),
        forall|k: int|
            0 <= k < 12 ==> #[trigger] id@[8 + k] == (stirred_times(
                peer_seed(nanos, process),
                (k + 1) as nat,
            ) & 0xff) as u8,
{
    let mut id: [u8; 20] = [45, 83, 87, 48, 48, 48, 49, 45, 0, 0, 0, 0, 0, 0, 0, 0, 0, 0, 0, 0];
    let start: u64 = match nanos {
        Some(nanos) => nanos,
        None => 0x5a17_cafe,
    };
    let ghost seed = peer_seed(nanos, process);
    let mut x: u64 = start ^ ((process as u64) << 32u64);
    let mut k: usize = 0;
    while k < 12
        invariant
            k <= 12,
            x == stirred_times(seed, k as nat),
            id@.take(8) == client_prefix(),
            forall|j: int|
                0 <= j < k ==> #[trigger] id@[8 + j] == (stirred_times(
                    seed,
                    (j + 1) as nat,
                ) & 0xff) as u8,
        decreases 12 - k,
    {
        x = stir(x);
        let ghost before = id@;
        id[8 + k] = (x & 0xff) as u8;
        assert(id@.take(8) =~= before.take(8));
        k = k + 1;
    }
    id
}

/// The identity of the client begins with its name and version between dashes.
pub proof fn identities_name_the_client()
    ensures
        client_prefix().len() == "-SW0001-"@.len(),
        forall|i: int|
            0 <= i < client_prefix().len() ==> #[trigger] client_prefix()[i]
                == "-SW0001-"@[i] as int,
{
    reveal_strlit("-SW0001-");
    let prefix = client_prefix();
    assert forall|i: int| 0 <= i < prefix.len() implies #[trigger] prefix[i]
        == "-SW0001-"@[i] as int by {
        assert(i == 0 || i == 1 || i == 2 || i == 3 || i == 4 || i == 5 || i == 6 || i == 7);
    }
}

} // verus!

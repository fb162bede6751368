//! The components from which the address of an extra account is derived, and
//! how a list of them is stored in thirty-two bytes.

use crate::error::{AccountResolutionError, ProgramError};
use crate::pod::zeros;
use vstd::prelude::*;

verus! {

/// One component of the seeds of a derived address.
#[derive(Clone, Debug, PartialEq)]
pub enum Seed {
    /// Uninitialized configuration byte space
    Uninitialized,
    /// A literal hard-coded argument
    Literal {
        /// The literal value repesented as a vector of bytes.
        bytes: Vec<u8>,
    },
    /// An instruction-provided argument, to be resolved from the instruction
    /// data
    InstructionData {
        /// The index where the bytes of an instruction argument begin
        index: u8,
        /// The length of the instruction argument (number of bytes)
        length: u8,
    },
    /// The public key of an account from the entire accounts list.
    /// Note: This includes an extra accounts required.
    AccountKey {
        /// The index of the account in the entire accounts list
        index: u8,
    },
    /// An argument to be resolved from the inner data of some account
    AccountData {
        /// The index of the account in the entire accounts list
        account_index: u8,
        /// The index where the bytes of an account data argument begin
        data_index: u8,
        /// The length of the argument (number of bytes)
        length: u8,
    },
}

/// What a seed component holds.
pub enum SeedView {
    Uninitialized,
    Literal { bytes: Seq<u8> },
    InstructionData { index: u8, length: u8 },
    AccountKey { index: u8 },
    AccountData { account_index: u8, data_index: u8, length: u8 },
}

impl View for Seed {
    type V = SeedView;

    open spec fn view(&self) -> SeedView {
        match self {
            Seed::Uninitialized => SeedView::Uninitialized,
            Seed::Literal { bytes } => SeedView::Literal { bytes: bytes@ },
            Seed::InstructionData { index, length } => SeedView::InstructionData {
                index: *index,
                length: *length,
            },
            Seed::AccountKey { index } => SeedView::AccountKey { index: *index },
            Seed::AccountData { account_index, data_index, length } => SeedView::AccountData {
                account_index: *account_index,
                data_index: *data_index,
                length: *length,
            },
        }
    }
}

/// Length of the space in which the seeds of one address are stored.
pub const ADDRESS_CONFIG_LEN: usize = 32;

/// The bytes that store one seed: a tag, then what the seed holds, a literal
/// with its length in front.
pub open spec fn spec_seed_bytes(seed: SeedView) -> Seq<u8> {
    match seed {
        SeedView::Uninitialized => seq![0u8],
        SeedView::Literal { bytes } => seq![1u8, bytes.len() as u8] + bytes,
        SeedView::InstructionData { index, length } => seq![2u8, index, length],
        SeedView::AccountKey { index } => seq![3u8, index],
        SeedView::AccountData { account_index, data_index, length } => seq![
            4u8,
            account_index,
            data_index,
            length,
        ],
    }
}

/// The bytes that store the seeds `seeds` from the seed `from` on, one after
/// the other.
pub open spec fn spec_seeds_bytes(seeds: Seq<SeedView>, from: int) -> Seq<u8>
    decreases seeds.len() - from,
{
    if from < 0 || from >= seeds.len() {
        Seq::empty()
    } else {
        spec_seed_bytes(seeds[from]) + spec_seeds_bytes(seeds, from + 1)
    }
}

/// Whether a seed can be stored: it is no unused space, and a literal has at
/// most 255 bytes.
pub open spec fn spec_seed_storable(seed: SeedView) -> bool {
    match seed {
        SeedView::Uninitialized => false,
        SeedView::Literal { bytes } => bytes.len() <= u8::MAX,
        _ => true,
    }
}

/// The thirty-two bytes that store `seeds`: their bytes one after the other,
/// then zero bytes. A seed that cannot be stored is `InvalidSeedConfig`;
/// seeds that take more than thirty-two bytes are `SeedConfigsTooLarge`.
pub open spec fn spec_pack_address_config(seeds: Seq<SeedView>) -> Result<Seq<u8>, ProgramError> {
    if exists|i: int| 0 <= i < seeds.len() && !spec_seed_storable(#[trigger] seeds[i]) {
        Err(ProgramError::Resolution(AccountResolutionError::InvalidSeedConfig))
    } else if spec_seeds_bytes(seeds, 0).len() > ADDRESS_CONFIG_LEN {
        Err(ProgramError::Resolution(AccountResolutionError::SeedConfigsTooLarge))
    } else {
        Ok(
            spec_seeds_bytes(seeds, 0) + zeros(
                (ADDRESS_CONFIG_LEN - spec_seeds_bytes(seeds, 0).len()) as nat,
            ),
        )
    }
}

/// `r` with `seed` put in front.
pub open spec fn spec_with_seed(seed: SeedView, r: Result<Seq<SeedView>, ProgramError>) -> Result<
    Seq<SeedView>,
    ProgramError,
> {
    match r {
        Ok(seeds) => Ok(seq![seed] + seeds),
        Err(e) => Err(e),
    }
}

/// The bytes of `config` from `at` on that are left to read.
pub open spec fn spec_config_left(config: Seq<u8>, at: int) -> nat {
    if at < config.len() {
        (config.len() - at) as nat
    } else {
        0
    }
}

/// The seeds that `config` stores from `at` on: they end at the first tag 0
/// or at the end of the space. A seed that is cut short is
/// `InvalidBytesForSeed`, a tag that names no seed `InvalidSeedConfig`.
pub open spec fn spec_unpack_seeds(config: Seq<u8>, at: int) -> Result<Seq<SeedView>, ProgramError>
    decreases spec_config_left(config, at),
{
    if at < 0 || at >= config.len() || config[at] == 0 {
        Ok(Seq::empty())
    } else if config[at] == 1 {
        if at + 2 > config.len() || at + 2 + config[at + 1] > config.len() {
            Err(ProgramError::Resolution(AccountResolutionError::InvalidBytesForSeed))
        } else {
            spec_with_seed(
                SeedView::Literal { bytes: config.subrange(at + 2, at + 2 + config[at + 1]) },
                spec_unpack_seeds(config, at + 2 + config[at + 1]),
            )
        }
    } else if config[at] == 2 {
        if at + 3 > config.len() {
            Err(ProgramError::Resolution(AccountResolutionError::InvalidBytesForSeed))
        } else {
            spec_with_seed(
                SeedView::InstructionData { index: config[at + 1], length: config[at + 2] },
                spec_unpack_seeds(config, at + 3),
            )
        }
    } else if config[at] == 3 {
        if at + 2 > config.len() {
            Err(ProgramError::Resolution(AccountResolutionError::InvalidBytesForSeed))
        } else {
            spec_with_seed(
                SeedView::AccountKey { index: config[at + 1] },
                spec_unpack_seeds(config, at + 2),
            )
        }
    } else if config[at] == 4 {
        if at + 4 > config.len() {
            Err(ProgramError::Resolution(AccountResolutionError::InvalidBytesForSeed))
        } else {
            spec_with_seed(
                SeedView::AccountData {
                    account_index: config[at + 1],
                    data_index: config[at + 2],
                    length: config[at + 3],
                },
                spec_unpack_seeds(config, at + 4),
            )
        }
    } else {
        Err(ProgramError::Resolution(AccountResolutionError::InvalidSeedConfig))
    }
}

/// The views of the seeds of `seeds`.
pub open spec fn spec_seed_views(seeds: Seq<Seed>) -> Seq<SeedView> {
    Seq::new(seeds.len(), |i: int| seeds[i]@)
}

/// `r` with the seeds `front` put in front.
pub open spec fn spec_with_seeds(front: Seq<SeedView>, r: Result<Seq<SeedView>, ProgramError>)
    -> Result<Seq<SeedView>, ProgramError> {
    match r {
        Ok(seeds) => Ok(front + seeds),
        Err(e) => Err(e),
    }
}

impl Seed {
    /// Packs a slice of seeds into the thirty-two bytes of an address
    /// configuration: see `spec_pack_address_config`.
    pub fn pack_into_address_config(seeds: &[Seed]) -> (r: Result<[u8; 32], ProgramError>)
        ensures
            match spec_pack_address_config(spec_seed_views(seeds@)) {
                Ok(bytes) => r matches Ok(packed) && packed@ == bytes,
                Err(e) => r matches Err(f) && f == e,
            },
    {
        let ghost views = spec_seed_views(seeds@);
        let n = seeds.len();
        // every seed must be storable
        let mut k: usize = 0;
        while k < n
            invariant
                k <= n,
                n == seeds@.len(),
                views == spec_seed_views(seeds@),
                forall|i: int| 0 <= i < k ==> spec_seed_storable(#[trigger] views[i]),
            decreases n - k,
        {
            match &seeds[k] {
                Seed::Uninitialized => {
                    assert(!spec_seed_storable(views[k as int]));
                    return Err(
                        ProgramError::Resolution(AccountResolutionError::InvalidSeedConfig),
                    );
                },
                Seed::Literal { bytes } => {
                    if bytes.len() > u8::MAX as usize {
                        assert(!spec_seed_storable(views[k as int]));
                        return Err(
                            ProgramError::Resolution(AccountResolutionError::InvalidSeedConfig),
                        );
                    }
                },
                _ => {},
            }
            k += 1;
        }
        // the seeds must fit: their bytes are counted from the last seed to
        // the first, which is how `spec_seeds_bytes` is defined
        let mut total: usize = 0;
        let mut j: usize = n;
        while j > 0
            invariant
                j <= n,
                n == seeds@.len(),
                views == spec_seed_views(seeds@),
                forall|i: int| 0 <= i < n ==> spec_seed_storable(#[trigger] views[i]),
                total == spec_seeds_bytes(views, j as int).len(),
                total <= 32,
            decreases j,
        {
            j -= 1;
            assert(spec_seed_storable(views[j as int]));
            assert(views[j as int] == seeds@[j as int]@);
            let size: usize = match &seeds[j] {
                Seed::Uninitialized => 1,
                Seed::Literal { bytes } => 2 + bytes.len(),
                Seed::InstructionData { .. } => 3,
                Seed::AccountKey { .. } => 2,
                Seed::AccountData { .. } => 4,
            };
            assert(spec_seed_storable(views[j as int]));
            assert(size == spec_seed_bytes(views[j as int]).len());
            if size > 32 - total {
                proof {
                    lemma_seeds_bytes_grow(views, 0, j as int);
                }
                return Err(ProgramError::Resolution(AccountResolutionError::SeedConfigsTooLarge));
            }
            total = total + size;
        }
        let mut config: [u8; 32] = vstd::array::array_fill_for_copy_types(0u8);
        let mut at: usize = 0;
        let mut i: usize = 0;
        while i < n
            invariant
                i <= n,
                n == seeds@.len(),
                views == spec_seed_views(seeds@),
                forall|i: int| 0 <= i < n ==> spec_seed_storable(#[trigger] views[i]),
                at + spec_seeds_bytes(views, i as int).len() == spec_seeds_bytes(views, 0).len(),
                spec_seeds_bytes(views, 0).len() <= 32,
                config@.len() == 32,
                spec_seeds_bytes(views, 0) == config@.subrange(0, at as int) + spec_seeds_bytes(
                    views,
                    i as int,
                ),
                forall|k: int| at <= k < 32 ==> config@[k] == 0,
            decreases n - i,
        {
            let ghost before = config@;
            let ghost start = at;
            assert(spec_seed_storable(views[i as int]));
            assert(views[i as int] == seeds@[i as int]@);
            match &seeds[i] {
                Seed::Uninitialized => {},
                Seed::Literal { bytes } => {
                    config[at] = 1;
                    config[at + 1] = bytes.len() as u8;
                    let m = bytes.len();
                    let mut b: usize = 0;
                    while b < m
                        invariant
                            b <= m,
                            m == bytes@.len(),
                            at + 2 + m <= 32,
                            config@.len() == 32,
                            before.len() == 32,
                            forall|k: int| 0 <= k < at ==> config@[k] == before[k],
                            config@[at as int] == 1,
                            config@[at + 1] == m as u8,
                            forall|k: int| at + 2 <= k < at + 2 + b ==> config@[k] == bytes@[k
                                - at - 2],
                            forall|k: int| at + 2 + b <= k < 32 ==> config@[k] == 0,
                        decreases m - b,
                    {
                        config[at + 2 + b] = bytes[b];
                        b += 1;
                    }
                    at = at + 2 + m;
                },
                Seed::InstructionData { index, length } => {
                    config[at] = 2;
                    config[at + 1] = *index;
                    config[at + 2] = *length;
                    at = at + 3;
                },
                Seed::AccountKey { index } => {
                    config[at] = 3;
                    config[at + 1] = *index;
                    at = at + 2;
                },
                Seed::AccountData { account_index, data_index, length } => {
                    config[at] = 4;
                    config[at + 1] = *account_index;
                    config[at + 2] = *data_index;
                    config[at + 3] = *length;
                    at = at + 4;
                },
            }
            proof {
                assert(config@.subrange(0, at as int) =~= before.subrange(0, start as int)
                    + spec_seed_bytes(views[i as int]));
                assert(before.subrange(0, start as int) + spec_seed_bytes(views[i as int])
                    + spec_seeds_bytes(views, i + 1) =~= before.subrange(0, start as int) + (
                    spec_seed_bytes(views[i as int]) + spec_seeds_bytes(views, i + 1)));
            }
            i += 1;
        }
        proof {
            assert(spec_seeds_bytes(views, 0) =~= config@.subrange(0, at as int));
            assert(config@ =~= spec_seeds_bytes(views, 0) + zeros((32 - at) as nat));
        }
        Ok(config)
    }

    /// Unpacks the seeds stored in the thirty-two bytes of an address
    /// configuration: see `spec_unpack_seeds`.
    pub fn unpack_address_config(address_config: &[u8; 32]) -> (r: Result<Vec<Seed>, ProgramError>)
        ensures
            match spec_unpack_seeds(address_config@, 0) {
                Ok(seeds) => r matches Ok(found) && spec_seed_views(found@) == seeds,
                Err(e) => r matches Err(f) && f == e,
            },
    {
        let config = vstd::array::array_as_slice(address_config);
        let mut seeds: Vec<Seed> = Vec::new();
        let mut i: usize = 0;
        proof {
            let whole = spec_unpack_seeds(address_config@, 0);
            if let Ok(all) = whole {
                assert(spec_seed_views(seeds@) + all =~= all);
            }
        }
        let mut done = false;
        while i < 32 && !done
            invariant
                i <= 32,
                done ==> i < 32 && config@[i as int] == 0,
                config@ == address_config@,
                config@.len() == 32,
                spec_unpack_seeds(config@, 0) == spec_with_seeds(
                    spec_seed_views(seeds@),
                    spec_unpack_seeds(config@, i as int),
                ),
            decreases 32 - i, if done { 0int } else { 1int },
        {
            let ghost front = spec_seed_views(seeds@);
            let tag = config[i];
            let seed: Seed;
            let size: usize;
            if tag == 0 {
                done = true;
                seed = Seed::Uninitialized;
                size = 0;
            } else if tag == 1 {
                if 32 - i < 2 || 32 - i - 2 < config[i + 1] as usize {
                    return Err(
                        ProgramError::Resolution(AccountResolutionError::InvalidBytesForSeed),
                    );
                }
                let m = config[i + 1] as usize;
                let mut bytes: Vec<u8> = Vec::new();
                let mut b: usize = 0;
                while b < m
                    invariant
                        b <= m,
                        i + 2 + m <= 32,
                        config@.len() == 32,
                        bytes@ == config@.subrange(i + 2, i + 2 + b),
                    decreases m - b,
                {
                    bytes.push(config[i + 2 + b]);
                    assert(bytes@ =~= config@.subrange(i + 2, i + 2 + b + 1));
                    b += 1;
                }
                seed = Seed::Literal { bytes };
                size = 2 + m;
            } else if tag == 2 {
                if 32 - i < 3 {
                    return Err(
                        ProgramError::Resolution(AccountResolutionError::InvalidBytesForSeed),
                    );
                }
                seed = Seed::InstructionData { index: config[i + 1], length: config[i + 2] };
                size = 3;
            } else if tag == 3 {
                if 32 - i < 2 {
                    return Err(
                        ProgramError::Resolution(AccountResolutionError::InvalidBytesForSeed),
                    );
                }
                seed = Seed::AccountKey { index: config[i + 1] };
                size = 2;
            } else if tag == 4 {
                if 32 - i < 4 {
                    return Err(
                        ProgramError::Resolution(AccountResolutionError::InvalidBytesForSeed),
                    );
                }
                seed = Seed::AccountData {
                    account_index: config[i + 1],
                    data_index: config[i + 2],
                    length: config[i + 3],
                };
                size = 4;
            } else {
                return Err(ProgramError::Resolution(AccountResolutionError::InvalidSeedConfig));
            }
            if !done {
                proof {
                    let rest = spec_unpack_seeds(config@, i + size);
                    assert(spec_seed_views(seeds@.push(seed)) =~= front.push(seed@));
                    if let Ok(more) = rest {
                        assert(front.push(seed@) + more =~= front + (seq![seed@] + more));
                    }
                }
                seeds.push(seed);
                i = i + size;
            }
        }
        proof {
            assert(spec_seed_views(seeds@) + Seq::<SeedView>::empty() =~= spec_seed_views(seeds@));
        }
        Ok(seeds)
    }
}

/// The bytes of the seeds from `from` on are at least as many as those of
/// the seeds from a later seed on.
pub proof fn lemma_seeds_bytes_grow(seeds: Seq<SeedView>, from: int, to: int)
    requires
        0 <= from <= to <= seeds.len(),
    ensures
        spec_seeds_bytes(seeds, from).len() >= spec_seeds_bytes(seeds, to).len(),
        from < to ==> spec_seeds_bytes(seeds, from).len() >= spec_seed_bytes(seeds[to - 1]).len()
            + spec_seeds_bytes(seeds, to).len(),
    decreases to - from,
{
    if from < to {
        lemma_seeds_bytes_grow(seeds, from + 1, to);
    }
}

/// The bytes of the seeds from `from` on stand at the end of the bytes of
/// all seeds.
pub proof fn lemma_seeds_bytes_suffix(seeds: Seq<SeedView>, from: int)
    requires
        0 <= from <= seeds.len(),
    ensures
        spec_seeds_bytes(seeds, from).len() <= spec_seeds_bytes(seeds, 0).len(),
        spec_seeds_bytes(seeds, 0).subrange(
            spec_seeds_bytes(seeds, 0).len() - spec_seeds_bytes(seeds, from).len(),
            spec_seeds_bytes(seeds, 0).len() as int,
        ) == spec_seeds_bytes(seeds, from),
    decreases from,
{
    let all = spec_seeds_bytes(seeds, 0);
    if from == 0 {
        assert(all.subrange(0, all.len() as int) =~= all);
    } else {
        lemma_seeds_bytes_suffix(seeds, from - 1);
        let longer = spec_seeds_bytes(seeds, from - 1);
        let shorter = spec_seeds_bytes(seeds, from);
        assert(longer == spec_seed_bytes(seeds[from - 1]) + shorter);
        assert(all.subrange(all.len() - shorter.len(), all.len() as int) =~= longer.subrange(
            longer.len() - shorter.len(),
            longer.len() as int,
        ));
        assert(longer.subrange(longer.len() - shorter.len(), longer.len() as int) =~= shorter);
    }
}

/// The seeds from `from` on are read back from the place where they are
/// stored.
proof fn lemma_unpack_packed_from(seeds: Seq<SeedView>, config: Seq<u8>, from: int)
    requires
        0 <= from <= seeds.len(),
        spec_pack_address_config(seeds) == Ok::<Seq<u8>, ProgramError>(config),
    ensures
        spec_unpack_seeds(
            config,
            spec_seeds_bytes(seeds, 0).len() - spec_seeds_bytes(seeds, from).len(),
        ) == Ok::<Seq<SeedView>, ProgramError>(seeds.subrange(from, seeds.len() as int)),
    decreases seeds.len() - from,
{
    let all = spec_seeds_bytes(seeds, 0);
    let rest = spec_seeds_bytes(seeds, from);
    let at = all.len() - rest.len();
    lemma_seeds_bytes_suffix(seeds, from);
    assert(config.len() == 32);
    assert forall|k: int| 0 <= k < all.len() implies config[k] == all[k] by {}
    assert forall|k: int| all.len() <= k < 32 implies config[k] == 0 by {}
    if from == seeds.len() {
        assert(seeds.subrange(from, seeds.len() as int) =~= Seq::<SeedView>::empty());
    } else {
        let seed = seeds[from];
        let bytes = spec_seed_bytes(seed);
        assert(spec_seed_storable(seed));
        assert(rest == bytes + spec_seeds_bytes(seeds, from + 1));
        assert forall|k: int| 0 <= k < bytes.len() implies config[at + k] == bytes[k] by {
            assert(all.subrange(at, all.len() as int)[k] == rest[k]);
        }
        lemma_unpack_packed_from(seeds, config, from + 1);
        assert(seq![seed] + seeds.subrange(from + 1, seeds.len() as int) =~= seeds.subrange(
            from,
            seeds.len() as int,
        ));
        match seed {
            SeedView::Literal { bytes: literal } => {
                assert(config[at] == bytes[0]);
                assert(config[at + 1] == bytes[1]);
                assert(config.subrange(at + 2, at + 2 + literal.len()) =~= literal) by {
                    assert forall|k: int| 0 <= k < literal.len() implies config[at + 2 + k]
                        == literal[k] by {
                        assert(config[at + (2 + k)] == bytes[2 + k]);
                    }
                }
            },
            SeedView::InstructionData { .. } => {
                assert(config[at] == bytes[0]);
                assert(config[at + 1] == bytes[1]);
                assert(config[at + 2] == bytes[2]);
            },
            SeedView::AccountKey { .. } => {
                assert(config[at] == bytes[0]);
                assert(config[at + 1] == bytes[1]);
            },
            SeedView::AccountData { .. } => {
                assert(config[at] == bytes[0]);
                assert(config[at + 1] == bytes[1]);
                assert(config[at + 2] == bytes[2]);
                assert(config[at + 3] == bytes[3]);
            },
            SeedView::Uninitialized => {},
        }
    }
}

/// Seeds that are packed into an address configuration are the seeds that
/// are unpacked from it.
pub proof fn lemma_unpack_packed_seeds(seeds: Seq<SeedView>)
    requires
        spec_pack_address_config(seeds) is Ok,
    ensures
        spec_unpack_seeds(spec_pack_address_config(seeds).unwrap(), 0) == Ok::<
            Seq<SeedView>,
            ProgramError,
        >(seeds),
{
    lemma_unpack_packed_from(seeds, spec_pack_address_config(seeds).unwrap(), 0);
    assert(seeds.subrange(0, seeds.len() as int) =~= seeds);
}

} // verus!

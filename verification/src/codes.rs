//! The code identifiers of the built-in actors: each is the identity hash of
//! a well-known name.

use crate::cid::{Cid, Multihash, IDENTITY_HASH, IPLD_RAW};
use vstd::prelude::*;
use vstd::string::StringSliceAdditionalSpecFns;

verus! {

pub const SYSTEM_ACTOR_CODE_ID_NAME: &'static str = "fil/7/system";

pub const INIT_ACTOR_CODE_ID_NAME: &'static str = "fil/7/init";

pub const CRON_ACTOR_CODE_ID_NAME: &'static str = "fil/7/cron";

pub const ACCOUNT_ACTOR_CODE_ID_NAME: &'static str = "fil/7/account";

pub const POWER_ACTOR_CODE_ID_NAME: &'static str = "fil/7/storagepower";

pub const MINER_ACTOR_CODE_ID_NAME: &'static str = "fil/7/storageminer";

pub const MARKET_ACTOR_CODE_ID_NAME: &'static str = "fil/7/storagemarket";

pub const PAYCH_ACTOR_CODE_ID_NAME: &'static str = "fil/7/paymentchannel";

pub const MULTISIG_ACTOR_CODE_ID_NAME: &'static str = "fil/7/multisig";

pub const REWARD_ACTOR_CODE_ID_NAME: &'static str = "fil/7/reward";

pub const VERIFREG_ACTOR_CODE_ID_NAME: &'static str = "fil/7/verifiedregistry";

pub const CHAOS_ACTOR_CODE_ID_NAME: &'static str = "fil/7/chaos";

/// The code identifier that stands for a name: the identifier of a raw block
/// whose hash is the name itself.
pub open spec fn builtin_code(name: &str) -> Cid {
    Cid { codec: IPLD_RAW, hash: Multihash::spec_wrap(IDENTITY_HASH, name.spec_bytes()) }
}

fn make_builtin(name: &str) -> (r: Cid)
    requires
        name.spec_bytes().len() <= 64,
    ensures
        r == builtin_code(name),
        r.wf(),
{
    Cid::new_v1(IPLD_RAW, Multihash::wrap(IDENTITY_HASH, name.as_bytes()).unwrap())
}

/// Code identifier of the system actor.
pub fn system_actor_code_id() -> (r: Cid)
    ensures
        r == builtin_code(SYSTEM_ACTOR_CODE_ID_NAME),
        r.wf(),
{
    proof {
        reveal_strlit("fil/7/system");
        vstd::string::is_ascii_spec_bytes(SYSTEM_ACTOR_CODE_ID_NAME);
    }
    make_builtin(SYSTEM_ACTOR_CODE_ID_NAME)
}

/// Code identifier of the init actor.
pub fn init_actor_code_id() -> (r: Cid)
    ensures
        r == builtin_code(INIT_ACTOR_CODE_ID_NAME),
        r.wf(),
{
    proof {
        reveal_strlit("fil/7/init");
        vstd::string::is_ascii_spec_bytes(INIT_ACTOR_CODE_ID_NAME);
    }
    make_builtin(INIT_ACTOR_CODE_ID_NAME)
}

/// Code identifier of the cron actor.
pub fn cron_actor_code_id() -> (r: Cid)
    ensures
        r == builtin_code(CRON_ACTOR_CODE_ID_NAME),
        r.wf(),
{
    proof {
        reveal_strlit("fil/7/cron");
        vstd::string::is_ascii_spec_bytes(CRON_ACTOR_CODE_ID_NAME);
    }
    make_builtin(CRON_ACTOR_CODE_ID_NAME)
}

/// Code identifier of the account actor.
pub fn account_actor_code_id() -> (r: Cid)
    ensures
        r == builtin_code(ACCOUNT_ACTOR_CODE_ID_NAME),
        r.wf(),
{
    proof {
        reveal_strlit("fil/7/account");
        vstd::string::is_ascii_spec_bytes(ACCOUNT_ACTOR_CODE_ID_NAME);
    }
    make_builtin(ACCOUNT_ACTOR_CODE_ID_NAME)
}

/// Code identifier of the power actor.
pub fn power_actor_code_id() -> (r: Cid)
    ensures
        r == builtin_code(POWER_ACTOR_CODE_ID_NAME),
        r.wf(),
{
    proof {
        reveal_strlit("fil/7/storagepower");
        vstd::string::is_ascii_spec_bytes(POWER_ACTOR_CODE_ID_NAME);
    }
    make_builtin(POWER_ACTOR_CODE_ID_NAME)
}

/// Code identifier of the miner actor.
pub fn miner_actor_code_id() -> (r: Cid)
    ensures
        r == builtin_code(MINER_ACTOR_CODE_ID_NAME),
        r.wf(),
{
    proof {
        reveal_strlit("fil/7/storageminer");
        vstd::string::is_ascii_spec_bytes(MINER_ACTOR_CODE_ID_NAME);
    }
    make_builtin(MINER_ACTOR_CODE_ID_NAME)
}

/// Code identifier of the market actor.
pub fn market_actor_code_id() -> (r: Cid)
    ensures
        r == builtin_code(MARKET_ACTOR_CODE_ID_NAME),
        r.wf(),
{
    proof {
        reveal_strlit("fil/7/storagemarket");
        vstd::string::is_ascii_spec_bytes(MARKET_ACTOR_CODE_ID_NAME);
    }
    make_builtin(MARKET_ACTOR_CODE_ID_NAME)
}

/// Code identifier of the paych actor.
pub fn paych_actor_code_id() -> (r: Cid)
    ensures
        r == builtin_code(PAYCH_ACTOR_CODE_ID_NAME),
        r.wf(),
{
    proof {
        reveal_strlit("fil/7/paymentchannel");
        vstd::string::is_ascii_spec_bytes(PAYCH_ACTOR_CODE_ID_NAME);
    }
    make_builtin(PAYCH_ACTOR_CODE_ID_NAME)
}

/// Code identifier of the multisig actor.
pub fn multisig_actor_code_id() -> (r: Cid)
    ensures
        r == builtin_code(MULTISIG_ACTOR_CODE_ID_NAME),
        r.wf(),
{
    proof {
        reveal_strlit("fil/7/multisig");
        vstd::string::is_ascii_spec_bytes(MULTISIG_ACTOR_CODE_ID_NAME);
    }
    make_builtin(MULTISIG_ACTOR_CODE_ID_NAME)
}

/// Code identifier of the reward actor.
pub fn reward_actor_code_id() -> (r: Cid)
    ensures
        r == builtin_code(REWARD_ACTOR_CODE_ID_NAME),
        r.wf(),
{
    proof {
        reveal_strlit("fil/7/reward");
        vstd::string::is_ascii_spec_bytes(REWARD_ACTOR_CODE_ID_NAME);
    }
    make_builtin(REWARD_ACTOR_CODE_ID_NAME)
}

/// Code identifier of the verifreg actor.
pub fn verifreg_actor_code_id() -> (r: Cid)
    ensures
        r == builtin_code(VERIFREG_ACTOR_CODE_ID_NAME),
        r.wf(),
{
    proof {
        reveal_strlit("fil/7/verifiedregistry");
        vstd::string::is_ascii_spec_bytes(VERIFREG_ACTOR_CODE_ID_NAME);
    }
    make_builtin(VERIFREG_ACTOR_CODE_ID_NAME)
}

/// Code identifier of the chaos actor.
pub fn chaos_actor_code_id() -> (r: Cid)
    ensures
        r == builtin_code(CHAOS_ACTOR_CODE_ID_NAME),
        r.wf(),
{
    proof {
        reveal_strlit("fil/7/chaos");
        vstd::string::is_ascii_spec_bytes(CHAOS_ACTOR_CODE_ID_NAME);
    }
    make_builtin(CHAOS_ACTOR_CODE_ID_NAME)
}

/// Whether the code belongs to a built-in actor.
pub open spec fn spec_is_builtin_actor(code: Cid) -> bool {
    code == builtin_code(SYSTEM_ACTOR_CODE_ID_NAME)
        || code == builtin_code(INIT_ACTOR_CODE_ID_NAME)
        || code == builtin_code(CRON_ACTOR_CODE_ID_NAME)
        || code == builtin_code(ACCOUNT_ACTOR_CODE_ID_NAME)
        || code == builtin_code(POWER_ACTOR_CODE_ID_NAME)
        || code == builtin_code(MINER_ACTOR_CODE_ID_NAME)
        || code == builtin_code(MARKET_ACTOR_CODE_ID_NAME)
        || code == builtin_code(PAYCH_ACTOR_CODE_ID_NAME)
        || code == builtin_code(MULTISIG_ACTOR_CODE_ID_NAME)
        || code == builtin_code(REWARD_ACTOR_CODE_ID_NAME)
        || code == builtin_code(VERIFREG_ACTOR_CODE_ID_NAME)
}

/// Returns true if the code belongs to a built-in actor.
#[verifier::when_used_as_spec(spec_is_builtin_actor_ref)]
pub fn is_builtin_actor(code: &Cid) -> (r: bool)
    ensures
        r == spec_is_builtin_actor(*code),
{
    code.same(&system_actor_code_id())
        || code.same(&init_actor_code_id())
        || code.same(&cron_actor_code_id())
        || code.same(&account_actor_code_id())
        || code.same(&power_actor_code_id())
        || code.same(&miner_actor_code_id())
        || code.same(&market_actor_code_id())
        || code.same(&paych_actor_code_id())
        || code.same(&multisig_actor_code_id())
        || code.same(&reward_actor_code_id())
        || code.same(&verifreg_actor_code_id())
}

pub open spec fn spec_is_builtin_actor_ref(code: &Cid) -> bool {
    spec_is_builtin_actor(*code)
}

/// Whether the code belongs to an actor of which the chain has only one.
pub open spec fn spec_is_singleton_actor(code: Cid) -> bool {
    code == builtin_code(SYSTEM_ACTOR_CODE_ID_NAME)
        || code == builtin_code(INIT_ACTOR_CODE_ID_NAME)
        || code == builtin_code(REWARD_ACTOR_CODE_ID_NAME)
        || code == builtin_code(CRON_ACTOR_CODE_ID_NAME)
        || code == builtin_code(POWER_ACTOR_CODE_ID_NAME)
        || code == builtin_code(MARKET_ACTOR_CODE_ID_NAME)
        || code == builtin_code(VERIFREG_ACTOR_CODE_ID_NAME)
}

/// Returns true if the code belongs to a singleton actor.
#[verifier::when_used_as_spec(spec_is_singleton_actor_ref)]
pub fn is_singleton_actor(code: &Cid) -> (r: bool)
    ensures
        r == spec_is_singleton_actor(*code),
{
    code.same(&system_actor_code_id())
        || code.same(&init_actor_code_id())
        || code.same(&reward_actor_code_id())
        || code.same(&cron_actor_code_id())
        || code.same(&power_actor_code_id())
        || code.same(&market_actor_code_id())
        || code.same(&verifreg_actor_code_id())
}

pub open spec fn spec_is_singleton_actor_ref(code: &Cid) -> bool {
    spec_is_singleton_actor(*code)
}

/// Whether the code belongs to an account actor.
pub open spec fn spec_is_account_actor(code: Cid) -> bool {
    code == builtin_code(ACCOUNT_ACTOR_CODE_ID_NAME)
}

/// Returns true if the code belongs to an account actor.
#[verifier::when_used_as_spec(spec_is_account_actor_ref)]
pub fn is_account_actor(code: &Cid) -> (r: bool)
    ensures
        r == spec_is_account_actor(*code),
{
    code.same(&account_actor_code_id())
}

pub open spec fn spec_is_account_actor_ref(code: &Cid) -> bool {
    spec_is_account_actor(*code)
}

/// Whether the code belongs to an actor that can stand for an external
/// signing party: an account or a multisig.
pub open spec fn spec_is_principal(code: Cid) -> bool {
    code == builtin_code(ACCOUNT_ACTOR_CODE_ID_NAME)
        || code == builtin_code(MULTISIG_ACTOR_CODE_ID_NAME)
}

/// Returns true if the code belongs to an account or a multisig actor.
#[verifier::when_used_as_spec(spec_is_principal_ref)]
pub fn is_principal(code: &Cid) -> (r: bool)
    ensures
        r == spec_is_principal(*code),
{
    code.same(&account_actor_code_id())
        || code.same(&multisig_actor_code_id())
}

pub open spec fn spec_is_principal_ref(code: &Cid) -> bool {
    spec_is_principal(*code)
}

/// The code names no actor that this table knows.
#[derive(Clone, Copy, Debug, PartialEq, Eq)]
pub struct UnknownCode(pub Cid);

/// The name that a code identifier stands for, the first in the order of the
/// table.
pub open spec fn spec_actor_name_by_code(code: Cid) -> Option<&'static str> {
    if code == builtin_code(SYSTEM_ACTOR_CODE_ID_NAME) {
        Some(SYSTEM_ACTOR_CODE_ID_NAME)
    } else if code == builtin_code(INIT_ACTOR_CODE_ID_NAME) {
        Some(INIT_ACTOR_CODE_ID_NAME)
    } else if code == builtin_code(CRON_ACTOR_CODE_ID_NAME) {
        Some(CRON_ACTOR_CODE_ID_NAME)
    } else if code == builtin_code(ACCOUNT_ACTOR_CODE_ID_NAME) {
        Some(ACCOUNT_ACTOR_CODE_ID_NAME)
    } else if code == builtin_code(POWER_ACTOR_CODE_ID_NAME) {
        Some(POWER_ACTOR_CODE_ID_NAME)
    } else if code == builtin_code(MINER_ACTOR_CODE_ID_NAME) {
        Some(MINER_ACTOR_CODE_ID_NAME)
    } else if code == builtin_code(MARKET_ACTOR_CODE_ID_NAME) {
        Some(MARKET_ACTOR_CODE_ID_NAME)
    } else if code == builtin_code(PAYCH_ACTOR_CODE_ID_NAME) {
        Some(PAYCH_ACTOR_CODE_ID_NAME)
    } else if code == builtin_code(MULTISIG_ACTOR_CODE_ID_NAME) {
        Some(MULTISIG_ACTOR_CODE_ID_NAME)
    } else if code == builtin_code(REWARD_ACTOR_CODE_ID_NAME) {
        Some(REWARD_ACTOR_CODE_ID_NAME)
    } else if code == builtin_code(VERIFREG_ACTOR_CODE_ID_NAME) {
        Some(VERIFREG_ACTOR_CODE_ID_NAME)
    } else if code == builtin_code(CHAOS_ACTOR_CODE_ID_NAME) {
        Some(CHAOS_ACTOR_CODE_ID_NAME)
    } else {
        None
    }
}

/// Given the code identifier of an actor, returns the name of the actor.
pub fn actor_name_by_code(code: &Cid) -> (r: Result<&'static str, UnknownCode>)
    ensures
        match spec_actor_name_by_code(*code) {
            Some(name) => r == Ok::<&'static str, UnknownCode>(name),
            None => r == Err::<&'static str, UnknownCode>(UnknownCode(*code)),
        },
{
    if code.same(&system_actor_code_id()) {
        Ok(SYSTEM_ACTOR_CODE_ID_NAME)
    } else if code.same(&init_actor_code_id()) {
        Ok(INIT_ACTOR_CODE_ID_NAME)
    } else if code.same(&cron_actor_code_id()) {
        Ok(CRON_ACTOR_CODE_ID_NAME)
    } else if code.same(&account_actor_code_id()) {
        Ok(ACCOUNT_ACTOR_CODE_ID_NAME)
    } else if code.same(&power_actor_code_id()) {
        Ok(POWER_ACTOR_CODE_ID_NAME)
    } else if code.same(&miner_actor_code_id()) {
        Ok(MINER_ACTOR_CODE_ID_NAME)
    } else if code.same(&market_actor_code_id()) {
        Ok(MARKET_ACTOR_CODE_ID_NAME)
    } else if code.same(&paych_actor_code_id()) {
        Ok(PAYCH_ACTOR_CODE_ID_NAME)
    } else if code.same(&multisig_actor_code_id()) {
        Ok(MULTISIG_ACTOR_CODE_ID_NAME)
    } else if code.same(&reward_actor_code_id()) {
        Ok(REWARD_ACTOR_CODE_ID_NAME)
    } else if code.same(&verifreg_actor_code_id()) {
        Ok(VERIFREG_ACTOR_CODE_ID_NAME)
    } else if code.same(&chaos_actor_code_id()) {
        Ok(CHAOS_ACTOR_CODE_ID_NAME)
    } else {
        Err(UnknownCode(*code))
    }
}

/// The names of the table, in its order.
pub open spec fn builtin_names() -> Seq<&'static str> {
    seq![
        SYSTEM_ACTOR_CODE_ID_NAME,
        INIT_ACTOR_CODE_ID_NAME,
        CRON_ACTOR_CODE_ID_NAME,
        ACCOUNT_ACTOR_CODE_ID_NAME,
        POWER_ACTOR_CODE_ID_NAME,
        MINER_ACTOR_CODE_ID_NAME,
        MARKET_ACTOR_CODE_ID_NAME,
        PAYCH_ACTOR_CODE_ID_NAME,
        MULTISIG_ACTOR_CODE_ID_NAME,
        REWARD_ACTOR_CODE_ID_NAME,
        VERIFREG_ACTOR_CODE_ID_NAME,
        CHAOS_ACTOR_CODE_ID_NAME,
    ]
}

/// What tells the names of the table apart: the length, and the bytes that
/// follow the common prefix and the common stem.
spec fn signature(bytes: Seq<u8>) -> (nat, u8, u8) {
    (
        bytes.len(),
        bytes[6],
        if bytes.len() > 13 {
            bytes[13]
        } else {
            0
        },
    )
}

proof fn lemma_signatures()
    ensures
        signature(SYSTEM_ACTOR_CODE_ID_NAME.spec_bytes()) == (12nat, 115u8, 0u8),
        signature(INIT_ACTOR_CODE_ID_NAME.spec_bytes()) == (10nat, 105u8, 0u8),
        signature(CRON_ACTOR_CODE_ID_NAME.spec_bytes()) == (10nat, 99u8, 0u8),
        signature(ACCOUNT_ACTOR_CODE_ID_NAME.spec_bytes()) == (13nat, 97u8, 0u8),
        signature(POWER_ACTOR_CODE_ID_NAME.spec_bytes()) == (18nat, 115u8, 112u8),
        signature(MINER_ACTOR_CODE_ID_NAME.spec_bytes()) == (18nat, 115u8, 109u8),
        signature(MARKET_ACTOR_CODE_ID_NAME.spec_bytes()) == (19nat, 115u8, 109u8),
        signature(PAYCH_ACTOR_CODE_ID_NAME.spec_bytes()) == (20nat, 112u8, 99u8),
        signature(MULTISIG_ACTOR_CODE_ID_NAME.spec_bytes()) == (14nat, 109u8, 103u8),
        signature(REWARD_ACTOR_CODE_ID_NAME.spec_bytes()) == (12nat, 114u8, 0u8),
        signature(VERIFREG_ACTOR_CODE_ID_NAME.spec_bytes()) == (22nat, 118u8, 100u8),
        signature(CHAOS_ACTOR_CODE_ID_NAME.spec_bytes()) == (11nat, 99u8, 0u8),
{
    reveal_strlit("fil/7/system");
    vstd::string::is_ascii_spec_bytes(SYSTEM_ACTOR_CODE_ID_NAME);
    reveal_strlit("fil/7/init");
    vstd::string::is_ascii_spec_bytes(INIT_ACTOR_CODE_ID_NAME);
    reveal_strlit("fil/7/cron");
    vstd::string::is_ascii_spec_bytes(CRON_ACTOR_CODE_ID_NAME);
    reveal_strlit("fil/7/account");
    vstd::string::is_ascii_spec_bytes(ACCOUNT_ACTOR_CODE_ID_NAME);
    reveal_strlit("fil/7/storagepower");
    vstd::string::is_ascii_spec_bytes(POWER_ACTOR_CODE_ID_NAME);
    reveal_strlit("fil/7/storageminer");
    vstd::string::is_ascii_spec_bytes(MINER_ACTOR_CODE_ID_NAME);
    reveal_strlit("fil/7/storagemarket");
    vstd::string::is_ascii_spec_bytes(MARKET_ACTOR_CODE_ID_NAME);
    reveal_strlit("fil/7/paymentchannel");
    vstd::string::is_ascii_spec_bytes(PAYCH_ACTOR_CODE_ID_NAME);
    reveal_strlit("fil/7/multisig");
    vstd::string::is_ascii_spec_bytes(MULTISIG_ACTOR_CODE_ID_NAME);
    reveal_strlit("fil/7/reward");
    vstd::string::is_ascii_spec_bytes(REWARD_ACTOR_CODE_ID_NAME);
    reveal_strlit("fil/7/verifiedregistry");
    vstd::string::is_ascii_spec_bytes(VERIFREG_ACTOR_CODE_ID_NAME);
    reveal_strlit("fil/7/chaos");
    vstd::string::is_ascii_spec_bytes(CHAOS_ACTOR_CODE_ID_NAME);
}

/// The code of a name of at most 64 bytes is a well-formed identifier of a
/// raw block whose hash is the identity hash of the name: its digest is the
/// name itself.
pub proof fn lemma_code_holds_name(name: &str)
    requires
        name.spec_bytes().len() <= 64,
    ensures
        builtin_code(name).wf(),
        builtin_code(name).codec == IPLD_RAW,
        builtin_code(name).hash.spec_code() == IDENTITY_HASH,
        builtin_code(name).hash@ == name.spec_bytes(),
{
    Multihash::lemma_wrap(IDENTITY_HASH, name.spec_bytes());
}

/// The twelve names of the table have twelve different codes.
pub proof fn lemma_codes_differ()
    ensures
        builtin_names().len() == 12,
        forall|i: int, j: int|
            0 <= i < j < 12 ==> builtin_code(#[trigger] builtin_names()[i]) != builtin_code(
                #[trigger] builtin_names()[j],
            ),
{
    lemma_signatures();
    assert forall|i: int, j: int| 0 <= i < j < 12 implies builtin_code(
        #[trigger] builtin_names()[i],
    ) != builtin_code(#[trigger] builtin_names()[j]) by {
        let a = builtin_names()[i];
        let b = builtin_names()[j];
        assert(a.spec_bytes().len() <= 64 && b.spec_bytes().len() <= 64);
        assert(signature(a.spec_bytes()) != signature(b.spec_bytes()));
        if builtin_code(a) == builtin_code(b) {
            lemma_code_holds_name(a);
            lemma_code_holds_name(b);
        }
    }
}

} // verus!

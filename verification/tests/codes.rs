use fvm::cid::{Cid, Multihash, IDENTITY_HASH, IPLD_RAW};
use fvm::codes::{
    account_actor_code_id, actor_name_by_code, chaos_actor_code_id, cron_actor_code_id,
    init_actor_code_id, is_account_actor, is_builtin_actor, is_principal, is_singleton_actor,
    market_actor_code_id, miner_actor_code_id, multisig_actor_code_id, paych_actor_code_id,
    power_actor_code_id, reward_actor_code_id, system_actor_code_id, verifreg_actor_code_id,
    UnknownCode, ACCOUNT_ACTOR_CODE_ID_NAME,
};

fn all() -> Vec<(Cid, &'static str)> {
    vec![
        (system_actor_code_id(), "fil/7/system"),
        (init_actor_code_id(), "fil/7/init"),
        (cron_actor_code_id(), "fil/7/cron"),
        (account_actor_code_id(), "fil/7/account"),
        (power_actor_code_id(), "fil/7/storagepower"),
        (miner_actor_code_id(), "fil/7/storageminer"),
        (market_actor_code_id(), "fil/7/storagemarket"),
        (paych_actor_code_id(), "fil/7/paymentchannel"),
        (multisig_actor_code_id(), "fil/7/multisig"),
        (reward_actor_code_id(), "fil/7/reward"),
        (verifreg_actor_code_id(), "fil/7/verifiedregistry"),
        (chaos_actor_code_id(), "fil/7/chaos"),
    ]
}

#[test]
fn codes_are_identity_hashes_of_their_names() {
    for (code, name) in all() {
        assert_eq!(code.codec(), IPLD_RAW);
        assert_eq!(code.hash().code(), IDENTITY_HASH);
        assert_eq!(code.hash().digest(), name.as_bytes());
        assert_eq!(code.hash().size() as usize, name.len());
        assert_eq!(actor_name_by_code(&code), Ok(name));
    }
    assert_eq!(ACCOUNT_ACTOR_CODE_ID_NAME, "fil/7/account");
}

#[test]
fn codes_agree_with_the_cid_crate() {
    for (code, name) in all() {
        let theirs = cid::Cid::new_v1(
            0x55,
            multihash::Multihash::<64>::wrap(0, name.as_bytes()).unwrap(),
        );
        assert_eq!(code.codec(), theirs.codec());
        assert_eq!(code.hash().code(), theirs.hash().code());
        assert_eq!(code.hash().size(), theirs.hash().size());
        assert_eq!(code.hash().digest(), theirs.hash().digest());
    }
}

#[test]
fn classes_of_codes() {
    let names = |pred: fn(&Cid) -> bool| -> Vec<&'static str> {
        all().into_iter().filter(|(code, _)| pred(code)).map(|(_, name)| name).collect()
    };
    assert_eq!(
        names(is_builtin_actor),
        vec![
            "fil/7/system",
            "fil/7/init",
            "fil/7/cron",
            "fil/7/account",
            "fil/7/storagepower",
            "fil/7/storageminer",
            "fil/7/storagemarket",
            "fil/7/paymentchannel",
            "fil/7/multisig",
            "fil/7/reward",
            "fil/7/verifiedregistry",
        ]
    );
    assert_eq!(
        names(is_singleton_actor),
        vec![
            "fil/7/system",
            "fil/7/init",
            "fil/7/cron",
            "fil/7/storagepower",
            "fil/7/storagemarket",
            "fil/7/reward",
            "fil/7/verifiedregistry",
        ]
    );
    assert_eq!(names(is_account_actor), vec!["fil/7/account"]);
    assert_eq!(names(is_principal), vec!["fil/7/account", "fil/7/multisig"]);
}

#[test]
fn other_codes_have_no_name() {
    let other = Cid::new_v1(IPLD_RAW, Multihash::wrap(IDENTITY_HASH, b"fil/7/accoun").unwrap());
    assert_eq!(actor_name_by_code(&other), Err(UnknownCode(other)));
    assert!(!is_builtin_actor(&other));
    assert!(!is_account_actor(&other));
    // the same name under another codec or hash function is another code
    let codec = Cid::new_v1(0x71, Multihash::wrap(IDENTITY_HASH, b"fil/7/account").unwrap());
    assert!(!is_account_actor(&codec));
    let hashed = Cid::new_v1(IPLD_RAW, Multihash::wrap(0x12, b"fil/7/account").unwrap());
    assert!(!is_account_actor(&hashed));
    assert!(!is_principal(&hashed));
    assert!(!is_singleton_actor(&codec));
}

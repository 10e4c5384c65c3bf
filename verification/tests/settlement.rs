use sequencer_randomness::protocol::Intent;
use sequencer_randomness::settlement::{
    season_owner, village_owner, ClaimEvent, ClaimStage, Claims, FinalizedBlock, Member, Schema,
    SchemaError, SettlementChecks, SettlementError, TypeDefinition,
};
use sequencer_randomness::Felt;
use starknet_types_core::felt::Felt as SdkFelt;
use starknet_types_core::hash::{Poseidon, StarkHash};

fn felt(value: u64) -> Felt {
    Felt::from(value)
}

fn action(arguments: Vec<Felt>) -> Intent {
    let mut fields = vec![SdkFelt::from_hex_unchecked("0x455445524e554d5f434f4d4d414e44"), SdkFelt::ONE];
    fields.extend(arguments.iter().map(|argument| SdkFelt::from_bytes_be(&argument.to_be_bytes())));
    Intent {
        chain: Felt::one(),
        deployment: Felt::one(),
        game: Felt::one(),
        actor: felt(456),
        nonce: 0,
        command: Felt::from_be_bytes(&Poseidon::hash_array(&fields).to_bytes_be()).unwrap(),
        rules: Felt::one(),
        valid_from: 1,
        valid_until: 2,
        last_order: 1,
        arguments,
    }
}

fn checks() -> SettlementChecks {
    SettlementChecks { tag: felt(11), season_tag: felt(14), village_tag: felt(15), l2: None }
}

fn source() -> Option<String> {
    Some(String::from("http://127.0.0.1:1"))
}

struct L2 {
    owner: u64,
    attributes: u64,
    finalized: bool,
}

fn verify(intent: &Intent, policy: &[Felt], l2: Option<&L2>) -> Result<bool, SettlementError> {
    let checks = SettlementChecks { l2: l2.and_then(|_| source()), ..checks() };
    let mut stage = checks.verify_claims(intent, policy)?;
    loop {
        let event = match (&stage, l2) {
            (ClaimStage::Decided(granted), _) => return Ok(*granted),
            (ClaimStage::ReadFinalized(_), Some(l2)) => ClaimEvent::Finalized(FinalizedBlock::Block {
                accepted_on_l1: l2.finalized,
                block_hash: felt(0xabc),
                block_number: 2,
            }),
            (_, Some(l2)) => {
                let (call, block_hash) = stage.token_read().unwrap();
                assert_eq!((call.contract, block_hash), (felt(11), felt(0xabc)));
                assert_eq!(call.calldata, [felt(0x13), Felt::zero()]);
                let value = match call.entry_point {
                    "owner_of" => l2.owner,
                    "get_metadata_raw" => l2.attributes,
                    other => panic!("{other} is no view of the collection"),
                };
                ClaimEvent::Values(Some(vec![felt(value)]))
            }
            _ => panic!("the claims need no external source"),
        };
        stage = stage.step(&event)?;
    }
}

fn accepted(intent: &Intent, policy: &[Felt]) -> bool {
    verify(intent, policy, None).unwrap()
}

#[test]
fn village_admission_binds_the_pass_owner_and_rejects_malformed_claims() {
    let policy = [felt(123), Felt::zero(), Felt::zero(), Felt::zero(), felt(1300)];
    let fields = vec![felt(15), policy[0], felt(u64::from(u16::MAX)), felt(u64::from(u32::MAX))];
    let valid = action(fields.clone());
    assert!(checks().is_settlement(&valid));
    assert!(accepted(&valid, &policy));
    let retained = Intent::decode(&valid.encode().unwrap()).unwrap();
    assert_eq!(village_owner(&retained), Some(policy[0]));
    for (index, replacement) in
        [(1, felt(456)), (2, felt(u64::from(u16::MAX) + 1)), (3, felt(u64::from(u32::MAX) + 1))]
    {
        let mut invalid = fields.clone();
        invalid[index] = replacement;
        assert!(!accepted(&action(invalid), &policy));
    }
    for length in 0..fields.len() {
        assert!(!accepted(&action(fields[..length].to_vec()), &policy));
    }
    let mut extended = fields;
    extended.push(Felt::zero());
    assert!(!accepted(&action(extended), &policy));
    let mut tampered = valid;
    tampered.arguments[2] = Felt::zero();
    assert!(!accepted(&tampered, &policy));
}

#[test]
fn signed_claims_reject_truncation_extra_fields_and_noncanonical_values() {
    let fields = vec![
        felt(11),
        felt(99),
        felt(123),
        felt(0xabc),
        Felt::two(),
        Felt::one(),
        felt(19),
        felt(123),
        felt(321),
        Felt::zero(),
    ];
    let valid = action(fields.clone());
    let claims = Claims::decode(&valid).unwrap();
    assert_eq!(claims.tokens[0].id, 19);
    assert_eq!(claims.tokens[0].attributes, 321);
    let mut changed = valid.clone();
    changed.arguments[8] = felt(777);
    assert!(Claims::decode(&changed).is_none());
    for length in 0..fields.len() {
        assert!(Claims::decode(&action(fields[..length].to_vec())).is_none());
    }
    let mut extended = fields.clone();
    extended.push(Felt::zero());
    assert!(Claims::decode(&action(extended)).is_none());
    let mut invalid_bool = fields.clone();
    invalid_bool[9] = Felt::two();
    assert!(Claims::decode(&action(invalid_bool)).is_none());
    let mut too_wide = fields;
    too_wide[8] = Felt::from_limbs(1, 0).unwrap();
    assert!(Claims::decode(&action(too_wide)).is_none());
}

#[test]
fn season_admission_binds_the_wallet_and_canonical_option_payload() {
    let policy = [felt(123), Felt::zero(), Felt::zero(), Felt::zero(), felt(1300)];
    for suffix in [vec![Felt::one()], vec![Felt::zero(), felt(87)]] {
        let mut fields = vec![felt(14), felt(99), felt(123)];
        fields.extend(suffix);
        let valid = action(fields.clone());
        assert!(checks().is_settlement(&valid));
        assert!(accepted(&valid, &policy));
        let retained = Intent::decode(&valid.encode().unwrap()).unwrap();
        assert_eq!(season_owner(&retained), Some(policy[0]));
        fields[2] = felt(456);
        assert!(!accepted(&action(fields.clone()), &policy));
        fields[2] = felt(123);
        fields.push(Felt::zero());
        assert!(!accepted(&action(fields), &policy));
        let mut changed = valid;
        changed.arguments[1] = Felt::one();
        assert!(!accepted(&changed, &policy));
    }
    for suffix in
        [vec![], vec![Felt::zero()], vec![Felt::two()], vec![Felt::zero(), felt(u64::from(u32::MAX) + 1)]]
    {
        let mut fields = vec![felt(14), felt(99), felt(123)];
        fields.extend(suffix);
        assert!(!accepted(&action(fields), &policy));
    }
}

#[test]
fn disabled_cosmetics_preserve_ignored_tokens_but_require_the_bound_owner() {
    let action = action(vec![
        felt(11),
        felt(99),
        felt(123),
        felt(0xabc),
        Felt::two(),
        Felt::one(),
        felt(19),
        felt(999),
        Felt::zero(),
        Felt::zero(),
    ]);
    assert!(checks().is_settlement(&action));
    assert!(accepted(&action, &[felt(123), Felt::zero(), Felt::one(), Felt::zero(), felt(1300)]));
    assert!(!accepted(&action, &[felt(789), Felt::zero(), Felt::one(), Felt::zero(), felt(1300)]));
}

fn proposal() -> Intent {
    action(vec![
        felt(11),
        felt(99),
        felt(123),
        felt(0xabc),
        Felt::two(),
        Felt::one(),
        felt(19),
        felt(123),
        felt(321),
        Felt::zero(),
    ])
}

#[test]
fn admission_reads_finalized_l2_wallet_ownership_and_retains_original_snapshot() {
    let mut source = L2 { owner: 123, attributes: 0x141, finalized: true };
    let proposal = proposal();
    let policy = [felt(123), felt(11), felt(12), felt(3), felt(1300)];
    assert!(verify(&proposal, &policy, Some(&source)).unwrap());
    let mut stale_snapshot = proposal.arguments.clone();
    stale_snapshot[4] = Felt::one();
    assert!(!verify(&action(stale_snapshot), &policy, Some(&source)).unwrap());
    let mut wrong_hash = proposal.arguments.clone();
    wrong_hash[3] = Felt::one();
    assert!(!verify(&action(wrong_hash), &policy, Some(&source)).unwrap());
    source.finalized = false;
    assert!(verify(&proposal, &policy, Some(&source)).is_err(), "L2-only acceptance is insufficient");
    source.finalized = true;
    source.owner = 456;
    assert!(!verify(&proposal, &policy, Some(&source)).unwrap(), "the gameplay account is not the L2 wallet");
    source.owner = 123;
    source.attributes = 5;
    assert!(!verify(&proposal, &policy, Some(&source)).unwrap());
    source.attributes = 0x141;
    let retained = proposal.encode().unwrap();
    source.owner = 789;
    assert!(!verify(&proposal, &policy, Some(&source)).unwrap());
    let recovered = Intent::decode(&retained).unwrap();
    assert_eq!(recovered, proposal);
    let claims = Claims::decode(&recovered).unwrap();
    assert_eq!(claims.owner, felt(123));
    assert_eq!(claims.block_hash, felt(0xabc));
    assert_eq!(claims.block_number, 2);
    assert_eq!(Claims::decode(&recovered).unwrap().tokens[0].attributes, 321);
    source.owner = 123;
    assert!(verify(&proposal, &policy, Some(&source)).unwrap());
}

#[test]
fn claims_meet_the_policy_before_any_read() {
    let policy = [felt(123), felt(11), felt(12), Felt::zero(), felt(1300)];
    assert!(!accepted(&proposal(), &policy));
    let mut wide = policy;
    wide[3] = felt(256);
    assert_eq!(verify(&proposal(), &wide, None), Err(SettlementError::InvalidLimit));
    assert_eq!(verify(&proposal(), &policy[..4], None), Err(SettlementError::MalformedPolicy));
    let none = action(vec![felt(11), felt(99), felt(123), felt(0xabc), Felt::two(), Felt::zero(), Felt::one()]);
    assert!(accepted(&none, &policy));
    let mut foreign = proposal().arguments;
    foreign[7] = felt(5);
    let mut limit = policy;
    limit[3] = Felt::one();
    let source = L2 { owner: 123, attributes: 321, finalized: true };
    assert!(!verify(&action(foreign), &limit, Some(&source)).unwrap());
    assert!(verify(&proposal(), &limit, Some(&source)).unwrap());
    assert!(!checks().is_settlement(&action(vec![])));
    assert!(!checks().is_settlement(&action(vec![felt(12)])));
}

#[test]
fn unfinalized_blocks_decide_nothing() {
    let policy = [felt(123), felt(11), felt(12), felt(3), felt(1300)];
    let ready = || SettlementChecks { l2: source(), ..checks() };
    let start = || ready().verify_claims(&proposal(), &policy).unwrap();
    assert_eq!(start().token_read(), None);
    assert_eq!(checks().verify_claims(&proposal(), &policy), Err(SettlementError::MissingSource));
    assert_eq!(
        SettlementError::MissingSource.message(),
        "cosmetic admission requires RANDOMNESS_L2_RPC_URL"
    );
    let pending = ClaimEvent::Finalized(FinalizedBlock::PreConfirmed);
    assert_eq!(start().step(&pending).err(), Some(SettlementError::PreConfirmed));
    let block = FinalizedBlock::Block { accepted_on_l1: false, block_hash: felt(0xabc), block_number: 2 };
    assert_eq!(start().step(&ClaimEvent::Finalized(block)).err(), Some(SettlementError::Unfinalized));
    assert!(matches!(start().step(&ClaimEvent::Values(None)), Ok(ClaimStage::ReadFinalized(_))));
    let block = FinalizedBlock::Block { accepted_on_l1: true, block_hash: felt(0xabc), block_number: 2 };
    let reading = start().step(&ClaimEvent::Finalized(block)).unwrap();
    assert_eq!(reading.step(&ClaimEvent::Values(None)), Ok(ClaimStage::Decided(false)));
    assert_eq!(SettlementError::Unfinalized.message(), "L2 provider returned an unfinalized block for l1_accepted");
}

fn member(name: &str, kind: &str) -> Member {
    Member { name: Some(String::from(name)), kind: Some(String::from(kind)) }
}

fn definition(name: &str, members: &[(&str, &str)]) -> TypeDefinition {
    TypeDefinition {
        name: String::from(name),
        members: Some(members.iter().map(|(name, kind)| member(name, kind)).collect()),
    }
}

const ADDRESS: &str = "core::starknet::contract_address::ContractAddress";

fn schema() -> Schema {
    Schema {
        commands: Some(vec![
            member("Explore", "x::Explore"),
            member("SettleVillage", "x::Village"),
            member("SettleBlitz", "x::Blitz"),
            member("SettleSeason", "x::Season"),
        ]),
        types: vec![
            definition(
                "x::Blitz",
                &[
                    ("name", "core::felt252"),
                    ("owner", ADDRESS),
                    ("cosmetics_block_hash", "core::felt252"),
                    ("cosmetics_block_number", "core::integer::u64"),
                    ("cosmetics", "core::array::Span::<world_native::settlement::AcceptedCosmetic>"),
                    ("grant_starting_troops", "core::bool"),
                ],
            ),
            definition(
                "world_native::settlement::AcceptedCosmetic",
                &[("token_id", "core::integer::u128"), ("owner", ADDRESS), ("attributes", "core::integer::u128")],
            ),
            definition(
                "x::Season",
                &[
                    ("name", "core::felt252"),
                    ("owner", ADDRESS),
                    ("selected_realm", "core::option::Option::<core::integer::u32>"),
                ],
            ),
            definition(
                "x::Village",
                &[
                    ("owner", ADDRESS),
                    ("pass_id", "core::integer::u16"),
                    ("connected_realm_entity_id", "core::integer::u32"),
                ],
            ),
        ],
    }
}

fn quoted(text: &Option<String>) -> String {
    format!("\"{}\"", text.as_ref().unwrap())
}

fn json(schema: &Schema) -> String {
    let list = |members: &[Member]| {
        let items: Vec<String> = members
            .iter()
            .map(|member| format!("{{\"name\": {}, \"type\": {}}}", quoted(&member.name), quoted(&member.kind)))
            .collect();
        format!("[{}]", items.join(", "))
    };
    let mut types: Vec<String> = schema
        .types
        .iter()
        .map(|kind| format!("\"{}\": {{\"members\": {}}}", kind.name, list(kind.members.as_ref().unwrap())))
        .collect();
    let commands = list(schema.commands.as_ref().unwrap());
    types.push(format!("\"world_native::commands::Command\": {{\"variants\": {commands}}}"));
    format!("{{\"version\": 1, \"types\": {{{}}}}}", types.join(", "))
}

#[test]
fn a_schema_fixes_the_settlement_commands() {
    let expected = |l2: Option<String>| {
        Ok(SettlementChecks { tag: felt(2), season_tag: felt(3), village_tag: felt(1), l2 })
    };
    assert_eq!(SettlementChecks::check(&schema()), expected(None));
    assert_eq!(SettlementChecks::load(&json(&schema()), None), expected(None));
    assert_eq!(SettlementChecks::load(&json(&schema()), source().as_deref()), expected(source()));
    let mut read = Schema::read(&json(&schema())).unwrap();
    read.types.retain(|kind| kind.members.is_some());
    read.types.sort_by(|a, b| a.name.cmp(&b.name));
    let mut written = schema();
    written.types.sort_by(|a, b| a.name.cmp(&b.name));
    assert_eq!(read, written);
}

#[test]
fn a_schema_that_does_not_fix_them_is_refused() {
    let words = serde_json::from_str::<serde_json::Value>("{").unwrap_err().to_string();
    let malformed = SettlementChecks::load("{", Some("no address")).err().unwrap();
    assert_eq!(malformed.message(), words);
    assert_eq!(malformed, SchemaError::Json(words));
    let words = "no address".parse::<url::Url>().unwrap_err().to_string();
    let unaddressed = SettlementChecks::load(&json(&schema()), Some("no address")).err().unwrap();
    assert_eq!(unaddressed.message(), words);
    assert_eq!(unaddressed, SchemaError::Url(words));
    assert_eq!(SettlementChecks::load("{}", Some("no address")), Err(SchemaError::MissingCommands));
    for text in ["{}", "[]", "7", "{\"types\": {}}", "{\"types\": {\"world_native::commands::Command\": []}}"] {
        assert_eq!(SettlementChecks::load(text, None), Err(SchemaError::MissingCommands));
    }
    let refused = |change: &dyn Fn(&mut Schema)| {
        let mut changed = schema();
        change(&mut changed);
        SettlementChecks::check(&changed).err().unwrap()
    };
    let rename = |index: usize| {
        move |schema: &mut Schema| schema.commands.as_mut().unwrap()[index].name = Some(String::from("Other"))
    };
    assert_eq!(refused(&rename(2)), SchemaError::MissingSettlement);
    assert_eq!(refused(&rename(3)), SchemaError::MissingSeason);
    assert_eq!(refused(&rename(1)), SchemaError::MissingVillage);
    let untype = |index: usize| move |schema: &mut Schema| schema.commands.as_mut().unwrap()[index].kind = None;
    assert_eq!(refused(&untype(2)), SchemaError::MissingSettlementPayload);
    assert_eq!(refused(&untype(3)), SchemaError::MissingSeasonPayload);
    assert_eq!(refused(&untype(1)), SchemaError::MissingVillagePayload);
    assert_eq!(refused(&|schema| schema.types[0].members = None), SchemaError::MissingType);
    assert_eq!(refused(&|schema| schema.types.truncate(1)), SchemaError::MissingType);
    for (index, name) in
        [(0, "x::Blitz"), (1, "world_native::settlement::AcceptedCosmetic"), (2, "x::Season"), (3, "x::Village")]
    {
        let shorten = |schema: &mut Schema| {
            schema.types[index].members.as_mut().unwrap().pop();
        };
        assert_eq!(refused(&shorten), SchemaError::Changed(String::from(name)));
        let retype = |schema: &mut Schema| {
            schema.types[index].members.as_mut().unwrap()[1].kind = Some(String::from("core::bool"));
        };
        assert_eq!(refused(&retype), SchemaError::Changed(String::from(name)));
    }
    assert_eq!(SchemaError::MissingType.message(), "missing native settlement type");
    let changed = SchemaError::Changed(String::from("x::Season"));
    assert_eq!(changed.message(), "native settlement schema changed: x::Season");
}

//! Admission of settlement commands: the command layout that a schema fixes, the claims that a
//! command carries and what must hold of them.

use crate::felt::{values, Felt};
use crate::json::{
    array_field, field, field_views, json_array, json_field, json_text, optional_text,
    parse_text, text_field, text_layer, text_views, Json, JsonView,
};
use crate::protocol::{Intent, IntentView};
use crate::rotation::ViewCall;
use crate::slices::append_felts;
use crate::stark::{poseidon, poseidon_array};
use crate::text::same_text;
use vstd::prelude::*;

verus! {

broadcast use crate::felt::lemma_felt_injective;

/// The tag that a command's commitment starts with.
pub const COMMAND_TAG: u128 = 0x455445524e554d5f434f4d4d414e44;

/// Why a schema does not fix the settlement commands' layout.
#[derive(Debug, PartialEq, Eq)]
pub enum SchemaError {
    /// The schema is no JSON, for the given reason.
    Json(String),
    /// The schema lists no commands.
    MissingCommands,
    /// There is no command to settle.
    MissingSettlement,
    /// The command to settle names no payload type.
    MissingSettlementPayload,
    /// There is no command to settle in a season.
    MissingSeason,
    /// The command to settle in a season names no payload type.
    MissingSeasonPayload,
    /// There is no command to settle a village.
    MissingVillage,
    /// The command to settle a village names no payload type.
    MissingVillagePayload,
    /// A payload type is not defined.
    MissingType,
    /// The named payload type has other members.
    Changed(String),
    /// The L2 address is no URL, for the given reason.
    Url(String),
}

/// The contents of a [`SchemaError`].
#[verifier::ext_equal]
pub enum SchemaErrorView {
    Json(Seq<char>),
    MissingCommands,
    MissingSettlement,
    MissingSettlementPayload,
    MissingSeason,
    MissingSeasonPayload,
    MissingVillage,
    MissingVillagePayload,
    MissingType,
    Changed(Seq<char>),
    Url(Seq<char>),
}

impl View for SchemaError {
    type V = SchemaErrorView;

    open spec fn view(&self) -> SchemaErrorView {
        match *self {
            SchemaError::Json(words) => SchemaErrorView::Json(words@),
            SchemaError::MissingCommands => SchemaErrorView::MissingCommands,
            SchemaError::MissingSettlement => SchemaErrorView::MissingSettlement,
            SchemaError::MissingSettlementPayload => SchemaErrorView::MissingSettlementPayload,
            SchemaError::MissingSeason => SchemaErrorView::MissingSeason,
            SchemaError::MissingSeasonPayload => SchemaErrorView::MissingSeasonPayload,
            SchemaError::MissingVillage => SchemaErrorView::MissingVillage,
            SchemaError::MissingVillagePayload => SchemaErrorView::MissingVillagePayload,
            SchemaError::MissingType => SchemaErrorView::MissingType,
            SchemaError::Changed(name) => SchemaErrorView::Changed(name@),
            SchemaError::Url(words) => SchemaErrorView::Url(words@),
        }
    }
}

/// A schema error in words.
pub open spec fn schema_error_text(error: SchemaErrorView) -> Seq<char> {
    match error {
        SchemaErrorView::Json(words) => words,
        SchemaErrorView::MissingCommands => "missing native command schema"@,
        SchemaErrorView::MissingSettlement => "missing settlement command"@,
        SchemaErrorView::MissingSettlementPayload => "missing settlement payload type"@,
        SchemaErrorView::MissingSeason => "missing season settlement command"@,
        SchemaErrorView::MissingSeasonPayload => "missing season settlement payload"@,
        SchemaErrorView::MissingVillage => "missing village settlement command"@,
        SchemaErrorView::MissingVillagePayload => "missing village payload"@,
        SchemaErrorView::MissingType => "missing native settlement type"@,
        SchemaErrorView::Changed(name) => "native settlement schema changed: "@ + name,
        SchemaErrorView::Url(words) => words,
    }
}

impl SchemaError {
    /// The error in words.
    pub fn message(&self) -> (result: String)
        ensures
            result@ == schema_error_text(self@),
    {
        match self {
            SchemaError::Json(words) => words.clone(),
            SchemaError::MissingCommands => "missing native command schema".to_owned(),
            SchemaError::MissingSettlement => "missing settlement command".to_owned(),
            SchemaError::MissingSettlementPayload => "missing settlement payload type".to_owned(),
            SchemaError::MissingSeason => "missing season settlement command".to_owned(),
            SchemaError::MissingSeasonPayload => "missing season settlement payload".to_owned(),
            SchemaError::MissingVillage => "missing village settlement command".to_owned(),
            SchemaError::MissingVillagePayload => "missing village payload".to_owned(),
            SchemaError::MissingType => "missing native settlement type".to_owned(),
            SchemaError::Changed(name) => "native settlement schema changed: ".to_owned().concat(
                name.as_str(),
            ),
            SchemaError::Url(words) => words.clone(),
        }
    }
}

/// The members of the payload that settles.
pub open spec fn settlement_members() -> Seq<(Seq<char>, Seq<char>)> {
    seq![
        ("name"@, "core::felt252"@),
        ("owner"@, "core::starknet::contract_address::ContractAddress"@),
        ("cosmetics_block_hash"@, "core::felt252"@),
        ("cosmetics_block_number"@, "core::integer::u64"@),
        ("cosmetics"@, "core::array::Span::<world_native::settlement::AcceptedCosmetic>"@),
        ("grant_starting_troops"@, "core::bool"@),
    ]
}

/// The members of one accepted cosmetic.
pub open spec fn cosmetic_members() -> Seq<(Seq<char>, Seq<char>)> {
    seq![
        ("token_id"@, "core::integer::u128"@),
        ("owner"@, "core::starknet::contract_address::ContractAddress"@),
        ("attributes"@, "core::integer::u128"@),
    ]
}

/// The members of the payload that settles in a season.
pub open spec fn season_members() -> Seq<(Seq<char>, Seq<char>)> {
    seq![
        ("name"@, "core::felt252"@),
        ("owner"@, "core::starknet::contract_address::ContractAddress"@),
        ("selected_realm"@, "core::option::Option::<core::integer::u32>"@),
    ]
}

/// The members of the payload that settles a village.
pub open spec fn village_members() -> Seq<(Seq<char>, Seq<char>)> {
    seq![
        ("owner"@, "core::starknet::contract_address::ContractAddress"@),
        ("pass_id"@, "core::integer::u16"@),
        ("connected_realm_entity_id"@, "core::integer::u32"@),
    ]
}

/// A member of a type, as far as it has a name and a type of its own.
#[derive(Debug, PartialEq, Eq)]
pub struct Member {
    pub name: Option<String>,
    pub kind: Option<String>,
}

/// The contents of a [`Member`].
#[verifier::ext_equal]
pub struct MemberView {
    pub name: Option<Seq<char>>,
    pub kind: Option<Seq<char>>,
}

impl View for Member {
    type V = MemberView;

    open spec fn view(&self) -> MemberView {
        MemberView { name: optional_text(self.name), kind: optional_text(self.kind) }
    }
}

/// Members by their contents.
pub open spec fn member_views(members: Seq<Member>) -> Seq<MemberView> {
    Seq::new(members.len(), |i: int| members[i]@)
}

/// A type of a schema; one that is no structure has no members.
#[derive(Debug, PartialEq, Eq)]
pub struct TypeDefinition {
    pub name: String,
    pub members: Option<Vec<Member>>,
}

/// The contents of a [`TypeDefinition`].
#[verifier::ext_equal]
pub struct TypeView {
    pub name: Seq<char>,
    pub members: Option<Seq<MemberView>>,
}

impl View for TypeDefinition {
    type V = TypeView;

    open spec fn view(&self) -> TypeView {
        TypeView {
            name: self.name@,
            members: match self.members {
                Some(members) => Some(member_views(members@)),
                None => None,
            },
        }
    }
}

/// Types by their contents.
pub open spec fn type_views(types: Seq<TypeDefinition>) -> Seq<TypeView> {
    Seq::new(types.len(), |i: int| types[i]@)
}

/// What a schema says of commands: the variants of the command type, each a name and the type of
/// its payload, and the types that payloads are made of.
#[derive(Debug, PartialEq, Eq)]
pub struct Schema {
    pub commands: Option<Vec<Member>>,
    pub types: Vec<TypeDefinition>,
}

/// The contents of a [`Schema`].
#[verifier::ext_equal]
pub struct SchemaView {
    pub commands: Option<Seq<MemberView>>,
    pub types: Seq<TypeView>,
}

impl View for Schema {
    type V = SchemaView;

    open spec fn view(&self) -> SchemaView {
        SchemaView {
            commands: match self.commands {
                Some(commands) => Some(member_views(commands@)),
                None => None,
            },
            types: type_views(self.types@),
        }
    }
}

/// The member that a JSON object defines.
pub open spec fn json_member(text: Seq<char>) -> MemberView {
    MemberView { name: json_text(text, "name"@), kind: json_text(text, "type"@) }
}

/// The members that the array under a key of a JSON object defines.
pub open spec fn json_members(text: Seq<char>, key: Seq<char>) -> Option<Seq<MemberView>> {
    match json_array(text, key) {
        Some(items) => Some(Seq::new(items.len(), |i: int| json_member(items[i]))),
        None => None,
    }
}

/// The types that a JSON object defines under their names.
pub open spec fn json_types(text: Seq<char>) -> Seq<TypeView> {
    match text_layer(text) {
        Ok(JsonView::Object(fields)) => Seq::new(
            fields.len(),
            |i: int|
                TypeView {
                    name: fields[i].0,
                    members: json_members(fields[i].1, "members"@),
                },
        ),
        _ => Seq::empty(),
    }
}

/// The schema that a JSON document holds, or the words in which text that is no JSON is refused.
pub open spec fn json_schema(text: Seq<char>) -> Result<SchemaView, Seq<char>> {
    match text_layer(text) {
        Err(words) => Err(words),
        Ok(_) => Ok(
            match json_field(text, "types"@) {
                None => SchemaView { commands: None, types: Seq::empty() },
                Some(types) => SchemaView {
                    commands: match json_field(types, "world_native::commands::Command"@) {
                        Some(command) => json_members(command, "variants"@),
                        None => None,
                    },
                    types: json_types(types),
                },
            },
        ),
    }
}

/// The members that the array under a key of a JSON object defines.
fn read_members(text: &str, key: &str) -> (result: Option<Vec<Member>>)
    ensures
        match result {
            Some(members) => json_members(text@, key@) == Some(member_views(members@)),
            None => json_members(text@, key@) is None,
        },
{
    let items: Vec<String> = array_field(text, key)?;
    let ghost views = text_views(items@);
    let mut members: Vec<Member> = Vec::new();
    let mut i: usize = 0;
    while i < items.len()
        invariant
            i <= items@.len(),
            views == text_views(items@),
            members@.len() == i,
            forall|k: int| 0 <= k < i ==> (#[trigger] members@[k])@ == json_member(views[k]),
        decreases items@.len() - i,
    {
        assert(views[i as int] == items@[i as int]@);
        let item: &str = items[i].as_str();
        members.push(Member { name: text_field(item, "name"), kind: text_field(item, "type") });
        i = i + 1;
    }
    assert(member_views(members@) =~= Seq::new(views.len(), |i: int| json_member(views[i])));
    Some(members)
}

/// The types that a JSON object defines under their names.
fn read_types(text: &str) -> (result: Vec<TypeDefinition>)
    ensures
        type_views(result@) == json_types(text@),
{
    let mut types: Vec<TypeDefinition> = Vec::new();
    if let Ok(Json::Object(fields)) = parse_text(text) {
        let ghost views = field_views(fields@);
        let mut i: usize = 0;
        while i < fields.len()
            invariant
                i <= fields@.len(),
                views == field_views(fields@),
                text_layer(text@) == Ok::<JsonView, Seq<char>>(JsonView::Object(views)),
                types@.len() == i,
                forall|k: int|
                    0 <= k < i ==> (#[trigger] types@[k])@ == (TypeView {
                        name: views[k].0,
                        members: json_members(views[k].1, "members"@),
                    }),
            decreases fields@.len() - i,
        {
            assert(views[i as int] == (fields@[i as int].0@, fields@[i as int].1@));
            types.push(
                TypeDefinition {
                    name: fields[i].0.clone(),
                    members: read_members(fields[i].1.as_str(), "members"),
                },
            );
            i = i + 1;
        }
    }
    assert(type_views(types@) =~= json_types(text@));
    types
}

impl Schema {
    /// The schema that a JSON document holds, or the words in which the text is refused.
    pub fn read(text: &str) -> (result: Result<Schema, String>)
        ensures
            match result {
                Ok(schema) => json_schema(text@) == Ok::<SchemaView, Seq<char>>(schema@),
                Err(words) => json_schema(text@) == Err::<SchemaView, Seq<char>>(words@),
            },
    {
        let document: Json = match parse_text(text) {
            Ok(document) => document,
            Err(words) => {
                return Err(words);
            },
        };
        match document.get("types") {
            None => {
                let schema: Schema = Schema { commands: None, types: Vec::new() };
                assert(schema@.types =~= Seq::empty());
                Ok(schema)
            },
            Some(types) => {
                let commands: Option<Vec<Member>> = match field(
                    types.as_str(),
                    "world_native::commands::Command",
                ) {
                    Some(command) => read_members(command.as_str(), "variants"),
                    None => None,
                };
                Ok(Schema { commands, types: read_types(types.as_str()) })
            },
        }
    }
}

/// Whether a member has a name and a type.
pub open spec fn is_member(member: MemberView, expected: (Seq<char>, Seq<char>)) -> bool {
    member.name == Some(expected.0) && member.kind == Some(expected.1)
}

/// Whether members are exactly the expected ones, in order.
pub open spec fn members_match(
    members: Seq<MemberView>,
    expected: Seq<(Seq<char>, Seq<char>)>,
) -> bool {
    &&& members.len() == expected.len()
    &&& forall|i: int|
        0 <= i < members.len() ==> is_member(#[trigger] members[i], expected[i])
}

/// The members of the first type from `i` on with a name.
pub open spec fn members_of(types: Seq<TypeView>, name: Seq<char>, i: int) -> Option<
    Seq<MemberView>,
>
    decreases types.len() - i,
{
    if i >= types.len() {
        None
    } else if types[i].name == name {
        types[i].members
    } else {
        members_of(types, name, i + 1)
    }
}

/// The error that a type meets where it does not have exactly the expected members, in order.
pub open spec fn members_fault(
    types: Seq<TypeView>,
    name: Seq<char>,
    expected: Seq<(Seq<char>, Seq<char>)>,
) -> Option<SchemaErrorView> {
    match members_of(types, name, 0) {
        None => Some(SchemaErrorView::MissingType),
        Some(members) => if members_match(members, expected) {
            None
        } else {
            Some(SchemaErrorView::Changed(name))
        },
    }
}

/// The position of the first command from `i` on with a name.
pub open spec fn command_at(commands: Seq<MemberView>, name: Seq<char>, i: int) -> Option<int>
    decreases commands.len() - i,
{
    if i >= commands.len() {
        None
    } else if commands[i].name == Some(name) {
        Some(i)
    } else {
        command_at(commands, name, i + 1)
    }
}

/// The error that a command meets where its payload does not have the expected members.
pub open spec fn command_fault(
    schema: SchemaView,
    name: Seq<char>,
    expected: Seq<(Seq<char>, Seq<char>)>,
    missing: SchemaErrorView,
    untyped: SchemaErrorView,
) -> Option<SchemaErrorView> {
    let commands = schema.commands->0;
    match command_at(commands, name, 0) {
        None => Some(missing),
        Some(tag) => match commands[tag].kind {
            None => Some(untyped),
            Some(payload) => members_fault(schema.types, payload, expected),
        },
    }
}

/// The error of the command that settles.
pub open spec fn settlement_fault(schema: SchemaView) -> Option<SchemaErrorView> {
    command_fault(
        schema,
        "SettleBlitz"@,
        settlement_members(),
        SchemaErrorView::MissingSettlement,
        SchemaErrorView::MissingSettlementPayload,
    )
}

/// The error of the type of an accepted cosmetic.
pub open spec fn cosmetic_fault(schema: SchemaView) -> Option<SchemaErrorView> {
    members_fault(
        schema.types,
        "world_native::settlement::AcceptedCosmetic"@,
        cosmetic_members(),
    )
}

/// The error of the command that settles in a season.
pub open spec fn season_fault(schema: SchemaView) -> Option<SchemaErrorView> {
    command_fault(
        schema,
        "SettleSeason"@,
        season_members(),
        SchemaErrorView::MissingSeason,
        SchemaErrorView::MissingSeasonPayload,
    )
}

/// The error of the command that settles a village.
pub open spec fn village_fault(schema: SchemaView) -> Option<SchemaErrorView> {
    command_fault(
        schema,
        "SettleVillage"@,
        village_members(),
        SchemaErrorView::MissingVillage,
        SchemaErrorView::MissingVillagePayload,
    )
}

/// The error that a schema meets where it does not fix the settlement commands' layout.
pub open spec fn schema_fault(schema: SchemaView) -> Option<SchemaErrorView> {
    if schema.commands is None {
        Some(SchemaErrorView::MissingCommands)
    } else if settlement_fault(schema) is Some {
        settlement_fault(schema)
    } else if cosmetic_fault(schema) is Some {
        cosmetic_fault(schema)
    } else if season_fault(schema) is Some {
        season_fault(schema)
    } else {
        village_fault(schema)
    }
}

/// A list of expected members, by their texts.
pub open spec fn expected_views(expected: Seq<(&'static str, &'static str)>) -> Seq<
    (Seq<char>, Seq<char>),
> {
    Seq::new(expected.len(), |i: int| (expected[i].0@, expected[i].1@))
}

/// Whether an optional text is the given one.
fn is_text(found: &Option<String>, expected: &str) -> (result: bool)
    ensures
        result == (optional_text(*found) == Some(expected@)),
{
    match found {
        Some(text) => same_text(text.as_str(), expected),
        None => false,
    }
}

/// Whether members are exactly the expected ones, in order.
fn match_members(members: &[Member], expected: &[(&'static str, &'static str)]) -> (result: bool)
    ensures
        result == members_match(member_views(members@), expected_views(expected@)),
{
    let ghost found = member_views(members@);
    let ghost wanted = expected_views(expected@);
    if members.len() != expected.len() {
        return false;
    }
    let mut i: usize = 0;
    while i < members.len()
        invariant
            i <= members@.len() == expected@.len(),
            found == member_views(members@),
            wanted == expected_views(expected@),
            forall|k: int| 0 <= k < i ==> is_member(#[trigger] found[k], wanted[k]),
        decreases members@.len() - i,
    {
        assert(found[i as int] == members@[i as int]@);
        assert(wanted[i as int] == (expected@[i as int].0@, expected@[i as int].1@));
        let (name, kind) = expected[i];
        if !is_text(&members[i].name, name) || !is_text(&members[i].kind, kind) {
            assert(!is_member(found[i as int], wanted[i as int]));
            return false;
        }
        i = i + 1;
    }
    true
}

/// Checks that a type has exactly the expected members, in order.
pub fn require_members(
    types: &[TypeDefinition],
    name: &str,
    expected: &[(&'static str, &'static str)],
) -> (result: Result<(), SchemaError>)
    ensures
        match result {
            Ok(_) => members_fault(type_views(types@), name@, expected_views(expected@)) is None,
            Err(error) => members_fault(type_views(types@), name@, expected_views(expected@))
                == Some(error@),
        },
{
    let ghost views = type_views(types@);
    let mut i: usize = 0;
    while i < types.len()
        invariant
            i <= types@.len(),
            views == type_views(types@),
            members_of(views, name@, 0) == members_of(views, name@, i as int),
        decreases types@.len() - i,
    {
        assert(views[i as int] == types@[i as int]@);
        if same_text(types[i].name.as_str(), name) {
            return match &types[i].members {
                None => Err(SchemaError::MissingType),
                Some(members) => if match_members(members, expected) {
                    Ok(())
                } else {
                    Err(SchemaError::Changed(name.to_owned()))
                },
            };
        }
        i = i + 1;
    }
    Err(SchemaError::MissingType)
}

/// The position of the first command with a name.
fn find_command(commands: &[Member], name: &str) -> (result: Option<usize>)
    ensures
        match result {
            Some(at) => at < commands@.len() && command_at(member_views(commands@), name@, 0)
                == Some(at as int),
            None => command_at(member_views(commands@), name@, 0) is None,
        },
{
    let ghost views = member_views(commands@);
    let mut i: usize = 0;
    while i < commands.len()
        invariant
            i <= commands@.len(),
            views == member_views(commands@),
            command_at(views, name@, 0) == command_at(views, name@, i as int),
        decreases commands@.len() - i,
    {
        assert(views[i as int] == commands@[i as int]@);
        if is_text(&commands[i].name, name) {
            return Some(i);
        }
        i = i + 1;
    }
    None
}

/// The position of the command with a name, whose payload must have the expected members.
fn command_tag(
    commands: &[Member],
    types: &[TypeDefinition],
    name: &str,
    expected: &[(&'static str, &'static str)],
    missing: SchemaError,
    untyped: SchemaError,
) -> (result: Result<usize, SchemaError>)
    ensures
        ({
            let schema = SchemaView {
                commands: Some(member_views(commands@)),
                types: type_views(types@),
            };
            let fault = command_fault(
                schema,
                name@,
                expected_views(expected@),
                missing@,
                untyped@,
            );
            match result {
                Ok(tag) => fault is None && command_at(member_views(commands@), name@, 0) == Some(
                    tag as int,
                ),
                Err(error) => fault == Some(error@),
            }
        }),
{
    let tag: usize = match find_command(commands, name) {
        Some(tag) => tag,
        None => {
            return Err(missing);
        },
    };
    assert(member_views(commands@)[tag as int] == commands@[tag as int]@);
    match &commands[tag].kind {
        None => Err(untyped),
        Some(payload) => match require_members(types, payload.as_str(), expected) {
            Ok(_) => Ok(tag),
            Err(error) => Err(error),
        },
    }
}

/// The words in which text that is no URL is refused; nothing where it is one.
pub uninterp spec fn url_error(text: Seq<char>) -> Option<Seq<char>>;

/// Calls `parse` of the standard library into the `Url` of `url`, which is `Url::parse`, and keeps the
/// error's words. What comes back depends on the text alone.
#[verifier::external_body]
fn url_fault(text: &str) -> (result: Option<String>)
    ensures
        optional_text(result) == url_error(text@),
{
    text.parse::<url::Url>().err().map(|error| error.to_string())
}

/// The settlement commands' places among a schema's commands, and the address of the L2 that claims
/// are read from.
#[derive(Debug, PartialEq, Eq)]
pub struct SettlementChecks {
    pub tag: Felt,
    pub season_tag: Felt,
    pub village_tag: Felt,
    pub l2: Option<String>,
}

/// Whether the settlement commands stand at the given places of a schema's commands.
pub open spec fn places_commands(checks: SettlementChecks, schema: SchemaView) -> bool {
    let commands = schema.commands->0;
    &&& command_at(commands, "SettleBlitz"@, 0) == Some(checks.tag@ as int)
    &&& command_at(commands, "SettleSeason"@, 0) == Some(checks.season_tag@ as int)
    &&& command_at(commands, "SettleVillage"@, 0) == Some(checks.village_tag@ as int)
}

/// The error that an L2 address meets: one that is given must be a URL.
pub open spec fn address_fault(l2: Option<Seq<char>>) -> Option<SchemaErrorView> {
    match l2 {
        Some(l2) => match url_error(l2) {
            Some(words) => Some(SchemaErrorView::Url(words)),
            None => None,
        },
        None => None,
    }
}

/// An address by its characters, where there is one.
pub open spec fn address_view(l2: Option<&str>) -> Option<Seq<char>> {
    match l2 {
        Some(l2) => Some(l2@),
        None => None,
    }
}

/// The error that loading a schema's text and an L2 address meets.
pub open spec fn load_fault(text: Seq<char>, l2: Option<Seq<char>>) -> Option<SchemaErrorView> {
    match json_schema(text) {
        Err(words) => Some(SchemaErrorView::Json(words)),
        Ok(schema) => if schema_fault(schema) is Some {
            schema_fault(schema)
        } else {
            address_fault(l2)
        },
    }
}

impl SettlementChecks {
    /// The settlement commands of a schema's text, which must fix their layout, with the L2 address
    /// that claims are read from, which must be a URL where it is given.
    pub fn load(text: &str, l2: Option<&str>) -> (result: Result<SettlementChecks, SchemaError>)
        ensures
            match result {
                Ok(checks) => load_fault(text@, address_view(l2)) is None && places_commands(
                    checks,
                    json_schema(text@)->Ok_0,
                ) && optional_text(checks.l2) == address_view(l2),
                Err(error) => load_fault(text@, address_view(l2)) == Some(error@),
            },
    {
        let schema: Schema = match Schema::read(text) {
            Ok(schema) => schema,
            Err(words) => {
                return Err(SchemaError::Json(words));
            },
        };
        let mut checks: SettlementChecks = SettlementChecks::check(&schema)?;
        if let Some(address) = l2 {
            if let Some(words) = url_fault(address) {
                return Err(SchemaError::Url(words));
            }
            checks.l2 = Some(address.to_owned());
        }
        Ok(checks)
    }

    /// The settlement commands of a schema, which must fix their layout, without an L2 address.
    pub fn check(schema: &Schema) -> (result: Result<SettlementChecks, SchemaError>)
        ensures
            match result {
                Ok(checks) => schema_fault(schema@) is None && places_commands(checks, schema@)
                    && checks.l2 is None,
                Err(error) => schema_fault(schema@) == Some(error@),
            },
    {
        let commands: &Vec<Member> = match &schema.commands {
            Some(commands) => commands,
            None => {
                return Err(SchemaError::MissingCommands);
            },
        };
        let types: &Vec<TypeDefinition> = &schema.types;
        let settlement: [(&'static str, &'static str); 6] = [
            ("name", "core::felt252"),
            ("owner", "core::starknet::contract_address::ContractAddress"),
            ("cosmetics_block_hash", "core::felt252"),
            ("cosmetics_block_number", "core::integer::u64"),
            ("cosmetics", "core::array::Span::<world_native::settlement::AcceptedCosmetic>"),
            ("grant_starting_troops", "core::bool"),
        ];
        assert(expected_views(settlement@) =~= settlement_members());
        let tag: usize = command_tag(
            commands,
            types,
            "SettleBlitz",
            &settlement,
            SchemaError::MissingSettlement,
            SchemaError::MissingSettlementPayload,
        )?;
        let cosmetic: [(&'static str, &'static str); 3] = [
            ("token_id", "core::integer::u128"),
            ("owner", "core::starknet::contract_address::ContractAddress"),
            ("attributes", "core::integer::u128"),
        ];
        assert(expected_views(cosmetic@) =~= cosmetic_members());
        require_members(types, "world_native::settlement::AcceptedCosmetic", &cosmetic)?;
        let season: [(&'static str, &'static str); 3] = [
            ("name", "core::felt252"),
            ("owner", "core::starknet::contract_address::ContractAddress"),
            ("selected_realm", "core::option::Option::<core::integer::u32>"),
        ];
        assert(expected_views(season@) =~= season_members());
        let season_tag: usize = command_tag(
            commands,
            types,
            "SettleSeason",
            &season,
            SchemaError::MissingSeason,
            SchemaError::MissingSeasonPayload,
        )?;
        let village: [(&'static str, &'static str); 3] = [
            ("owner", "core::starknet::contract_address::ContractAddress"),
            ("pass_id", "core::integer::u16"),
            ("connected_realm_entity_id", "core::integer::u32"),
        ];
        assert(expected_views(village@) =~= village_members());
        let village_tag: usize = command_tag(
            commands,
            types,
            "SettleVillage",
            &village,
            SchemaError::MissingVillage,
            SchemaError::MissingVillagePayload,
        )?;
        Ok(
            SettlementChecks {
                tag: Felt::from_u64(tag as u64),
                season_tag: Felt::from_u64(season_tag as u64),
                village_tag: Felt::from_u64(village_tag as u64),
                l2: None,
            },
        )
    }
}

/// The elements that a command's arguments are committed to as.
pub open spec fn command_fields(arguments: Seq<Felt>) -> Seq<nat> {
    seq![COMMAND_TAG as nat, 1nat] + values(arguments)
}

/// Whether an intent's command commits to its arguments.
pub open spec fn commits_arguments(intent: IntentView) -> bool {
    intent.command@ == poseidon_array(command_fields(intent.arguments))
}

/// Whether an intent's command commits to its arguments.
pub fn command_matches(intent: &Intent) -> (result: bool)
    ensures
        result == commits_arguments(intent@),
{
    let mut commitment: Vec<Felt> = Vec::new();
    commitment.push(Felt::from_u128(COMMAND_TAG));
    commitment.push(Felt::one());
    append_felts(&mut commitment, &intent.arguments);
    assert(values(commitment@) =~= command_fields(intent@.arguments));
    poseidon(&commitment) == intent.command
}

/// The owner that a season's settlement claims for.
pub open spec fn claimed_season_owner(intent: IntentView) -> Option<Felt> {
    let fields = intent.arguments;
    if commits_arguments(intent) && (fields.len() == 4 && fields[3]@ == 1 || fields.len() == 5
        && fields[3]@ == 0 && fields[4]@ <= u32::MAX) {
        Some(fields[2])
    } else {
        None
    }
}

/// The owner that a season's settlement claims for: its option is none, or a realm's number.
pub fn season_owner(intent: &Intent) -> (result: Option<Felt>)
    ensures
        result == claimed_season_owner(intent@),
{
    if !command_matches(intent) {
        return None;
    }
    let fields: &Vec<Felt> = &intent.arguments;
    if fields.len() == 4 && fields[3] == Felt::one() || fields.len() == 5 && fields[3]
        == Felt::zero() && fields[4].to_u32().is_some() {
        return Some(fields[2]);
    }
    None
}

/// The owner that a village's settlement claims for.
pub open spec fn claimed_village_owner(intent: IntentView) -> Option<Felt> {
    let fields = intent.arguments;
    if commits_arguments(intent) && fields.len() == 4 && fields[2]@ <= u16::MAX && fields[3]@
        <= u32::MAX {
        Some(fields[1])
    } else {
        None
    }
}

/// The owner that a village's settlement claims for.
pub fn village_owner(intent: &Intent) -> (result: Option<Felt>)
    ensures
        result == claimed_village_owner(intent@),
{
    if !command_matches(intent) {
        return None;
    }
    let fields: &Vec<Felt> = &intent.arguments;
    if fields.len() == 4 && fields[2].to_u16().is_some() && fields[3].to_u32().is_some() {
        return Some(fields[1]);
    }
    None
}

/// A cosmetic token that a settlement claims.
#[derive(Clone, Copy, Debug, PartialEq, Eq, Structural)]
pub struct Token {
    pub id: u128,
    pub owner: Felt,
    pub attributes: u128,
}

/// What a settlement claims: an owner, and the cosmetic tokens that it held at a block.
#[derive(Debug, PartialEq, Eq)]
pub struct Claims {
    pub owner: Felt,
    pub block_hash: Felt,
    pub block_number: u64,
    pub tokens: Vec<Token>,
}

/// The contents of a [`Claims`].
#[verifier::ext_equal]
pub struct ClaimsView {
    pub owner: Felt,
    pub block_hash: Felt,
    pub block_number: u64,
    pub tokens: Seq<Token>,
}

impl View for Claims {
    type V = ClaimsView;

    open spec fn view(&self) -> ClaimsView {
        ClaimsView {
            owner: self.owner,
            block_hash: self.block_hash,
            block_number: self.block_number,
            tokens: self.tokens@,
        }
    }
}

/// Whether the three elements at the place of the token at `i` are a token.
pub open spec fn token_fits(fields: Seq<Felt>, i: int) -> bool {
    fields[6 + 3 * i]@ <= u128::MAX && fields[8 + 3 * i]@ <= u128::MAX
}

/// The token at `i`.
pub open spec fn token_at(fields: Seq<Felt>, i: int) -> Token {
    Token {
        id: fields[6 + 3 * i]@ as u128,
        owner: fields[7 + 3 * i],
        attributes: fields[8 + 3 * i]@ as u128,
    }
}

/// Whether an intent's arguments are a settlement's: a tag, a name, an owner, a block's hash and
/// number, the number of tokens and the tokens, and a flag.
pub open spec fn claims_fit(intent: IntentView) -> bool {
    let fields = intent.arguments;
    &&& commits_arguments(intent)
    &&& fields.len() > 5
    &&& fields[5]@ <= u32::MAX
    &&& fields.len() == 7 + 3 * fields[5]@
    &&& fields.last()@ <= 1
    &&& forall|i: int| 0 <= i < fields[5]@ ==> #[trigger] token_fits(fields, i)
    &&& fields[4]@ <= u64::MAX
}

/// What an intent claims, where its arguments are a settlement's.
pub open spec fn claims_of(intent: IntentView) -> ClaimsView {
    let fields = intent.arguments;
    ClaimsView {
        owner: fields[2],
        block_hash: fields[3],
        block_number: fields[4]@ as u64,
        tokens: Seq::new(fields[5]@, |i: int| token_at(fields, i)),
    }
}

impl Claims {
    /// What an intent claims, where its arguments are a settlement's.
    pub fn decode(intent: &Intent) -> (result: Option<Claims>)
        ensures
            match result {
                Some(claims) => claims_fit(intent@) && claims@ == claims_of(intent@),
                None => !claims_fit(intent@),
            },
    {
        if !command_matches(intent) {
            return None;
        }
        let fields: &Vec<Felt> = &intent.arguments;
        let length: usize = fields.len();
        if length <= 5 {
            return None;
        }
        let count: u32 = fields[5].to_u32()?;
        if length as u128 != 7 + 3 * count as u128 {
            return None;
        }
        if fields[length - 1] != Felt::zero() && fields[length - 1] != Felt::one() {
            return None;
        }
        let mut tokens: Vec<Token> = Vec::new();
        let mut i: usize = 0;
        while i < count as usize
            invariant
                i <= count,
                fields@ == intent@.arguments,
                length == fields@.len() == 7 + 3 * count,
                count == fields@[5]@,
                tokens@.len() == i,
                forall|k: int| 0 <= k < i ==> #[trigger] token_fits(fields@, k),
                forall|k: int| 0 <= k < i ==> #[trigger] tokens@[k] == token_at(fields@, k),
            decreases count - i,
        {
            let at: usize = 6 + 3 * i;
            let (id, attributes) = match (fields[at].to_u128(), fields[at + 2].to_u128()) {
                (Some(id), Some(attributes)) => (id, attributes),
                _ => {
                    assert(!token_fits(fields@, i as int));
                    return None;
                },
            };
            tokens.push(Token { id, owner: fields[at + 1], attributes });
            i = i + 1;
        }
        let block_number: u64 = fields[4].to_u64()?;
        let claims: Claims = Claims {
            owner: fields[2],
            block_hash: fields[3],
            block_number,
            tokens,
        };
        assert(claims@ =~= claims_of(intent@));
        Some(claims)
    }
}

/// Why a settlement's claims could not be decided on.
#[derive(Clone, Copy, Debug, PartialEq, Eq, Structural)]
pub enum SettlementError {
    /// The admission policy has the wrong number of elements.
    MalformedPolicy,
    /// The policy's limit on cosmetics is out of range.
    InvalidLimit,
    /// There is no L2 to read the claims from.
    MissingSource,
    /// The finalized block that was asked for is not confirmed.
    PreConfirmed,
    /// The finalized block that was asked for is not finalized.
    Unfinalized,
}

/// A settlement error in words.
pub open spec fn settlement_error_text(error: SettlementError) -> Seq<char> {
    match error {
        SettlementError::MalformedPolicy => "malformed settlement admission policy"@,
        SettlementError::InvalidLimit => "invalid cosmetic limit"@,
        SettlementError::MissingSource => "cosmetic admission requires RANDOMNESS_L2_RPC_URL"@,
        SettlementError::PreConfirmed =>
            "L2 provider returned a pre-confirmed block for l1_accepted"@,
        SettlementError::Unfinalized =>
            "L2 provider returned an unfinalized block for l1_accepted"@,
    }
}

impl SettlementError {
    /// The error in words.
    pub fn message(&self) -> (result: &'static str)
        ensures
            result@ == settlement_error_text(*self),
    {
        match self {
            SettlementError::MalformedPolicy => "malformed settlement admission policy",
            SettlementError::InvalidLimit => "invalid cosmetic limit",
            SettlementError::MissingSource => "cosmetic admission requires RANDOMNESS_L2_RPC_URL",
            SettlementError::PreConfirmed =>
                "L2 provider returned a pre-confirmed block for l1_accepted",
            SettlementError::Unfinalized =>
                "L2 provider returned an unfinalized block for l1_accepted",
        }
    }
}

/// What is known of a settlement's claims: a decision, or what must be read to reach one.
#[derive(Debug, PartialEq, Eq)]
pub enum ClaimStage {
    /// The claims are granted, or not.
    Decided(bool),
    /// The finalized block is to be read.
    ReadFinalized(ClaimCheck),
    /// The owner of the token under check is to be read.
    ReadOwner(ClaimCheck),
    /// The attributes of the token under check are to be read.
    ReadAttributes(ClaimCheck),
}

/// Claims under check.
#[derive(Debug, PartialEq, Eq)]
pub struct ClaimCheck {
    pub claims: Claims,
    pub collection: Felt,
    pub index: usize,
}

/// The contents of a [`ClaimCheck`].
#[verifier::ext_equal]
pub struct CheckView {
    pub claims: ClaimsView,
    pub collection: Felt,
    pub index: int,
}

impl View for ClaimCheck {
    type V = CheckView;

    open spec fn view(&self) -> CheckView {
        CheckView {
            claims: self.claims@,
            collection: self.collection,
            index: self.index as int,
        }
    }
}

/// The contents of a [`ClaimStage`].
#[verifier::ext_equal]
pub enum StageView {
    Decided(bool),
    ReadFinalized(CheckView),
    ReadOwner(CheckView),
    ReadAttributes(CheckView),
}

impl View for ClaimStage {
    type V = StageView;

    open spec fn view(&self) -> StageView {
        match *self {
            ClaimStage::Decided(granted) => StageView::Decided(granted),
            ClaimStage::ReadFinalized(check) => StageView::ReadFinalized(check@),
            ClaimStage::ReadOwner(check) => StageView::ReadOwner(check@),
            ClaimStage::ReadAttributes(check) => StageView::ReadAttributes(check@),
        }
    }
}

/// The block that a provider returns for the latest one that is finalized.
#[derive(Clone, Copy, Debug, PartialEq, Eq, Structural)]
pub enum FinalizedBlock {
    /// A block that is not confirmed.
    PreConfirmed,
    /// A confirmed block, finalized or not.
    Block { accepted_on_l1: bool, block_hash: Felt, block_number: u64 },
}

/// What was read while claims were checked.
#[derive(Debug, PartialEq, Eq)]
pub enum ClaimEvent {
    /// The finalized block.
    Finalized(FinalizedBlock),
    /// The elements that a token's view returned; none where the contract refused the call.
    Values(Option<Vec<Felt>>),
}

/// Whether a token's view returned the one expected element.
pub open spec fn returned(found: Option<Vec<Felt>>, expected: nat) -> bool {
    found matches Some(found) && found@.len() == 1 && found@[0]@ == expected
}

impl CheckView {
    /// What the token under check calls for: nothing where every token is checked.
    pub open spec fn next_token(self) -> StageView {
        let token = self.claims.tokens[self.index];
        if self.index >= self.claims.tokens.len() {
            StageView::Decided(true)
        } else if token.owner != self.claims.owner || token.attributes == 0 {
            StageView::Decided(false)
        } else {
            StageView::ReadOwner(self)
        }
    }
}

/// A token's view: the collection, the view's name, the elements that it is called with and the hash
/// of the block at which it is read.
#[verifier::ext_equal]
pub struct TokenRead {
    pub collection: Felt,
    pub entry_point: Seq<char>,
    pub calldata: Seq<nat>,
    pub block_hash: Felt,
}

impl CheckView {
    /// The given view of the token under check, by the token's number, low limb first, at the
    /// claimed block.
    pub open spec fn read(self, entry_point: Seq<char>) -> TokenRead {
        TokenRead {
            collection: self.collection,
            entry_point,
            calldata: seq![self.claims.tokens[self.index].id as nat, 0nat],
            block_hash: self.claims.block_hash,
        }
    }
}

impl StageView {
    /// The view of the token under check that the stage reads.
    pub open spec fn token_read(self) -> Option<TokenRead> {
        match self {
            StageView::ReadOwner(check) => Some(check.read("owner_of"@)),
            StageView::ReadAttributes(check) => Some(check.read("get_metadata_raw"@)),
            _ => None,
        }
    }
}

/// A token's view by its contents.
pub open spec fn read_view(read: Option<(ViewCall, Felt)>) -> Option<TokenRead> {
    match read {
        Some((call, block_hash)) => Some(
            TokenRead {
                collection: call.contract,
                entry_point: call.entry_point@,
                calldata: values(call.calldata@),
                block_hash,
            },
        ),
        None => None,
    }
}

impl ClaimCheck {
    /// The given view of the token under check.
    fn call(&self, entry_point: &'static str) -> (result: ViewCall)
        requires
            self.index < self.claims.tokens@.len(),
        ensures
            result.contract == self.collection,
            result.entry_point@ == entry_point@,
            values(result.calldata@) == seq![self@.claims.tokens[self@.index].id as nat, 0nat],
    {
        let mut calldata: Vec<Felt> = Vec::new();
        calldata.push(Felt::from_u128(self.claims.tokens[self.index].id));
        calldata.push(Felt::zero());
        assert(values(calldata@) =~= seq![self@.claims.tokens[self@.index].id as nat, 0nat]);
        ViewCall { contract: self.collection, entry_point, calldata }
    }
}

/// What a stage makes of an event. An event that the stage does not wait for changes nothing.
pub open spec fn claim_next(stage: StageView, event: ClaimEvent) -> Result<
    StageView,
    SettlementError,
> {
    match (stage, event) {
        (StageView::ReadFinalized(check), ClaimEvent::Finalized(block)) => match block {
            FinalizedBlock::PreConfirmed => Err(SettlementError::PreConfirmed),
            FinalizedBlock::Block { accepted_on_l1, block_hash, block_number } => if !accepted_on_l1 {
                Err(SettlementError::Unfinalized)
            } else if check.claims.block_hash != block_hash || check.claims.block_number
                != block_number {
                Ok(StageView::Decided(false))
            } else {
                Ok(check.next_token())
            },
        },
        (StageView::ReadOwner(check), ClaimEvent::Values(found)) => if returned(
            found,
            check.claims.owner@,
        ) {
            Ok(StageView::ReadAttributes(check))
        } else {
            Ok(StageView::Decided(false))
        },
        (StageView::ReadAttributes(check), ClaimEvent::Values(found)) => if returned(
            found,
            check.claims.tokens[check.index].attributes as nat,
        ) {
            Ok((CheckView { index: check.index + 1, ..check }).next_token())
        } else {
            Ok(StageView::Decided(false))
        },
        _ => Ok(stage),
    }
}

/// Where the check of an intent's claims against an admission policy starts: an owner, a cosmetics
/// collection, a timelock, a limit on the number of cosmetics and the game's end.
pub open spec fn claim_start(
    checks: SettlementChecks,
    intent: IntentView,
    policy: Seq<Felt>,
) -> Result<StageView, SettlementError> {
    let owner = policy[0];
    let tag = intent.arguments[0];
    let tagged = intent.arguments.len() > 0;
    let claims = claims_of(intent);
    if policy.len() != 5 {
        Err(SettlementError::MalformedPolicy)
    } else if tagged && tag == checks.season_tag {
        Ok(StageView::Decided(claimed_season_owner(intent) == Some(owner) && owner@ != 0))
    } else if tagged && tag == checks.village_tag {
        Ok(StageView::Decided(claimed_village_owner(intent) == Some(owner) && owner@ != 0))
    } else if !claims_fit(intent) || claims.owner != owner || owner@ == 0 {
        Ok(StageView::Decided(false))
    } else if policy[1]@ == 0 || policy[2]@ == 0 {
        Ok(StageView::Decided(true))
    } else if policy[3]@ > u8::MAX {
        Err(SettlementError::InvalidLimit)
    } else if claims.tokens.len() > policy[3]@ {
        Ok(StageView::Decided(false))
    } else if claims.tokens.len() == 0 {
        Ok(StageView::Decided(true))
    } else if checks.l2 is None {
        Err(SettlementError::MissingSource)
    } else {
        Ok(StageView::ReadFinalized(CheckView { claims, collection: policy[1], index: 0 }))
    }
}

/// A stage by its contents, where one was reached.
pub open spec fn stage_result(result: Result<ClaimStage, SettlementError>) -> Result<
    StageView,
    SettlementError,
> {
    match result {
        Ok(stage) => Ok(stage@),
        Err(error) => Err(error),
    }
}

/// Whether a token's view returned the one expected element.
fn has_returned(found: &Option<Vec<Felt>>, expected: Felt) -> (result: bool)
    ensures
        result == returned(*found, expected@),
{
    match found {
        Some(found) => found.len() == 1 && found[0] == expected,
        None => false,
    }
}

/// What the token under check calls for.
fn next_token(check: ClaimCheck) -> (result: ClaimStage)
    ensures
        result@ == check@.next_token(),
{
    if check.index >= check.claims.tokens.len() {
        return ClaimStage::Decided(true);
    }
    let token: Token = check.claims.tokens[check.index];
    if token.owner != check.claims.owner || token.attributes == 0 {
        return ClaimStage::Decided(false);
    }
    ClaimStage::ReadOwner(check)
}

impl SettlementChecks {
    /// Whether an intent's command is one that settles.
    pub fn is_settlement(&self, intent: &Intent) -> (result: bool)
        ensures
            result == (intent@.arguments.len() > 0 && (intent@.arguments[0] == self.tag
                || intent@.arguments[0] == self.season_tag || intent@.arguments[0]
                == self.village_tag)),
    {
        if intent.arguments.len() == 0 {
            return false;
        }
        let tag: Felt = intent.arguments[0];
        tag == self.tag || tag == self.season_tag || tag == self.village_tag
    }

    /// Starts the check of an intent's claims against an admission policy.
    pub fn verify_claims(&self, intent: &Intent, policy: &[Felt]) -> (result: Result<
        ClaimStage,
        SettlementError,
    >)
        ensures
            stage_result(result) == claim_start(*self, intent@, policy@),
            result matches Ok(stage) ==> stage.valid(),
    {
        if policy.len() != 5 {
            return Err(SettlementError::MalformedPolicy);
        }
        let owner: Felt = policy[0];
        let zero: Felt = Felt::zero();
        if intent.arguments.len() > 0 && intent.arguments[0] == self.season_tag {
            let claimed: bool = match season_owner(intent) {
                Some(found) => found == owner && owner != zero,
                None => false,
            };
            return Ok(ClaimStage::Decided(claimed));
        }
        if intent.arguments.len() > 0 && intent.arguments[0] == self.village_tag {
            let claimed: bool = match village_owner(intent) {
                Some(found) => found == owner && owner != zero,
                None => false,
            };
            return Ok(ClaimStage::Decided(claimed));
        }
        let claims: Claims = match Claims::decode(intent) {
            Some(claims) => claims,
            None => {
                return Ok(ClaimStage::Decided(false));
            },
        };
        if claims.owner != owner || owner == zero {
            return Ok(ClaimStage::Decided(false));
        }
        if policy[1] == zero || policy[2] == zero {
            return Ok(ClaimStage::Decided(true));
        }
        let limit: u8 = match policy[3].to_u8() {
            Some(limit) => limit,
            None => {
                return Err(SettlementError::InvalidLimit);
            },
        };
        if claims.tokens.len() > limit as usize {
            return Ok(ClaimStage::Decided(false));
        }
        if claims.tokens.len() == 0 {
            return Ok(ClaimStage::Decided(true));
        }
        if self.l2.is_none() {
            return Err(SettlementError::MissingSource);
        }
        Ok(ClaimStage::ReadFinalized(ClaimCheck { claims, collection: policy[1], index: 0 }))
    }
}

impl ClaimStage {
    /// What holds of every stage that the check of claims reaches: the token that is read for is
    /// one of the claimed ones.
    pub open spec fn valid(self) -> bool {
        match self {
            ClaimStage::Decided(_) => true,
            ClaimStage::ReadFinalized(check) => check.index == 0,
            ClaimStage::ReadOwner(check) => check.index < check.claims.tokens@.len(),
            ClaimStage::ReadAttributes(check) => check.index < check.claims.tokens@.len(),
        }
    }

    /// The view of the token under check that the stage reads, and the hash of the block at which
    /// it does: the token's owner or its attributes, by the token's number.
    pub fn token_read(&self) -> (result: Option<(ViewCall, Felt)>)
        requires
            self.valid(),
        ensures
            read_view(result) == self@.token_read(),
    {
        match self {
            ClaimStage::ReadOwner(check) => Some(
                (check.call("owner_of"), check.claims.block_hash),
            ),
            ClaimStage::ReadAttributes(check) => Some(
                (check.call("get_metadata_raw"), check.claims.block_hash),
            ),
            _ => None,
        }
    }

    /// Goes on with the check of claims after an event.
    pub fn step(self, event: &ClaimEvent) -> (result: Result<ClaimStage, SettlementError>)
        requires
            self.valid(),
        ensures
            stage_result(result) == claim_next(self@, *event),
            result matches Ok(stage) ==> stage.valid(),
    {
        match (self, event) {
            (ClaimStage::ReadFinalized(check), ClaimEvent::Finalized(block)) => match *block {
                FinalizedBlock::PreConfirmed => Err(SettlementError::PreConfirmed),
                FinalizedBlock::Block { accepted_on_l1, block_hash, block_number } => {
                    if !accepted_on_l1 {
                        return Err(SettlementError::Unfinalized);
                    }
                    if check.claims.block_hash != block_hash || check.claims.block_number
                        != block_number {
                        return Ok(ClaimStage::Decided(false));
                    }
                    Ok(next_token(check))
                },
            },
            (ClaimStage::ReadOwner(check), ClaimEvent::Values(found)) => if has_returned(
                found,
                check.claims.owner,
            ) {
                Ok(ClaimStage::ReadAttributes(check))
            } else {
                Ok(ClaimStage::Decided(false))
            },
            (ClaimStage::ReadAttributes(check), ClaimEvent::Values(found)) => {
                let count: usize = check.claims.tokens.len();
                assert(check.index < count);
                let attributes: Felt = Felt::from_u128(check.claims.tokens[check.index].attributes);
                if !has_returned(found, attributes) {
                    return Ok(ClaimStage::Decided(false));
                }
                let next: ClaimCheck = ClaimCheck {
                    claims: check.claims,
                    collection: check.collection,
                    index: check.index + 1,
                };
                assert(next@ =~= (CheckView { index: check@.index + 1, ..check@ }));
                Ok(next_token(next))
            },
            (stage, _) => Ok(stage),
        }
    }
}

/// What the check of claims decides from a token's place on, where the collection's views return
/// the given elements for each token.
pub open spec fn claim_run(
    check: CheckView,
    owners: spec_fn(u128) -> Option<Vec<Felt>>,
    attributes: spec_fn(u128) -> Option<Vec<Felt>>,
) -> bool
    decreases check.claims.tokens.len() - check.index,
{
    let token = check.claims.tokens[check.index];
    match check.next_token() {
        StageView::Decided(granted) => granted,
        _ => match claim_next(StageView::ReadOwner(check), ClaimEvent::Values(owners(token.id))) {
            Ok(StageView::ReadAttributes(read)) => match claim_next(
                StageView::ReadAttributes(read),
                ClaimEvent::Values(attributes(token.id)),
            ) {
                Ok(StageView::Decided(granted)) => granted,
                _ => claim_run(
                    CheckView { index: check.index + 1, ..check },
                    owners,
                    attributes,
                ),
            },
            _ => false,
        },
    }
}

/// Whether a token is the owner's, has attributes, and the collection's views agree with it.
pub open spec fn token_granted(
    claims: ClaimsView,
    token: Token,
    owners: spec_fn(u128) -> Option<Vec<Felt>>,
    attributes: spec_fn(u128) -> Option<Vec<Felt>>,
) -> bool {
    &&& token.owner == claims.owner
    &&& token.attributes != 0
    &&& returned(owners(token.id), claims.owner@)
    &&& returned(attributes(token.id), token.attributes as nat)
}

/// Claims are granted exactly where the collection confirms every token that they name.
pub proof fn law_claims_are_granted_only_on_confirmation(
    check: CheckView,
    owners: spec_fn(u128) -> Option<Vec<Felt>>,
    attributes: spec_fn(u128) -> Option<Vec<Felt>>,
)
    requires
        0 <= check.index,
    ensures
        claim_run(check, owners, attributes) == (forall|i: int|
            check.index <= i < check.claims.tokens.len() ==> token_granted(
                check.claims,
                #[trigger] check.claims.tokens[i],
                owners,
                attributes,
            )),
    decreases check.claims.tokens.len() - check.index,
{
    if check.index < check.claims.tokens.len() {
        let token = check.claims.tokens[check.index];
        let next = CheckView { index: check.index + 1, ..check };
        law_claims_are_granted_only_on_confirmation(next, owners, attributes);
        if token_granted(check.claims, token, owners, attributes) {
            assert(claim_run(check, owners, attributes) == claim_run(next, owners, attributes));
            assert forall|i: int|
                check.index <= i < check.claims.tokens.len() && (forall|k: int|
                    next.index <= k < check.claims.tokens.len() ==> token_granted(
                        check.claims,
                        #[trigger] check.claims.tokens[k],
                        owners,
                        attributes,
                    )) implies token_granted(
                check.claims,
                #[trigger] check.claims.tokens[i],
                owners,
                attributes,
            ) by {
                if i != check.index {
                    assert(next.index <= i);
                }
            }
        } else {
            assert(!claim_run(check, owners, attributes));
        }
    }
}

/// Recovery decides nothing anew: what an intent claims is what its retained form claims.
pub proof fn law_retained_claims_are_the_same(intent: IntentView, retained: IntentView)
    requires
        crate::protocol::intent_fields(intent) == crate::protocol::intent_fields(retained),
    ensures
        claims_fit(intent) == claims_fit(retained),
        claims_of(intent) == claims_of(retained),
        claimed_season_owner(intent) == claimed_season_owner(retained),
        claimed_village_owner(intent) == claimed_village_owner(retained),
{
    crate::protocol::law_intent_form_is_unique(intent, retained);
}

/// The arguments that list tokens: each one's number, owner and attributes, one token after the
/// other.
pub open spec fn listed_tokens(tokens: Seq<Token>) -> Seq<nat>
    decreases tokens.len(),
{
    if tokens.len() == 0 {
        Seq::empty()
    } else {
        let token = tokens.last();
        listed_tokens(tokens.drop_last()) + seq![
            token.id as nat,
            token.owner@,
            token.attributes as nat,
        ]
    }
}

/// Where the token at `i` stands among the arguments that list tokens.
proof fn lemma_listed_token(tokens: Seq<Token>, i: int)
    requires
        0 <= i < tokens.len(),
    ensures
        listed_tokens(tokens).len() == 3 * tokens.len(),
        listed_tokens(tokens)[3 * i] == tokens[i].id,
        listed_tokens(tokens)[3 * i + 1] == tokens[i].owner@,
        listed_tokens(tokens)[3 * i + 2] == tokens[i].attributes,
    decreases tokens.len(),
{
    let before = tokens.drop_last();
    lemma_listed_length(before);
    if i < before.len() {
        lemma_listed_token(before, i);
    }
}

/// Tokens are listed by three arguments each.
proof fn lemma_listed_length(tokens: Seq<Token>)
    ensures
        listed_tokens(tokens).len() == 3 * tokens.len(),
    decreases tokens.len(),
{
    if tokens.len() > 0 {
        lemma_listed_length(tokens.drop_last());
    }
}

/// A settlement's arguments claim what they were made from: a list of a tag, a name, an owner, a
/// block's hash and number, the number of tokens, each token's number, owner and attributes, and a
/// flag is read as that owner, that block and exactly those tokens in their order.
#[verifier::spinoff_prover]
pub proof fn law_claims_are_read_back(
    intent: &Intent,
    claims: ClaimsView,
    tag: nat,
    name: nat,
    flag: nat,
    result: Option<Claims>,
)
    requires
        call_ensures(Claims::decode, (intent,), result),
        claims.tokens.len() <= u32::MAX,
        flag == 0 || flag == 1,
        values(intent.arguments@) == seq![
            tag,
            name,
            claims.owner@,
            claims.block_hash@,
            claims.block_number as nat,
            claims.tokens.len(),
        ] + listed_tokens(claims.tokens) + seq![flag],
        intent.command@ == poseidon_array(
            seq![0x455445524e554d5f434f4d4d414e44, 1] + values(intent.arguments@),
        ),
    ensures
        result is Some,
        result->0@ == claims,
{
    let fields = intent.arguments@;
    let form = values(fields);
    let count = claims.tokens.len();
    lemma_listed_length(claims.tokens);
    assert(form.len() == fields.len());
    assert(fields.len() == 7 + 3 * count);
    assert(forall|i: int| 0 <= i < fields.len() ==> #[trigger] form[i] == fields[i]@);
    assert(form[2] == fields[2]@ && form[3] == fields[3]@ && form[4] == fields[4]@ && form[5]
        == fields[5]@);
    assert(form.last() == flag);
    assert(fields.last()@ == form[fields.len() - 1]);
    assert forall|i: int| 0 <= i < count implies #[trigger] token_fits(fields, i) && token_at(
        fields,
        i,
    ) == claims.tokens[i] by {
        lemma_listed_token(claims.tokens, i);
        assert(form[6 + 3 * i] == listed_tokens(claims.tokens)[3 * i]);
        assert(form[7 + 3 * i] == listed_tokens(claims.tokens)[3 * i + 1]);
        assert(form[8 + 3 * i] == listed_tokens(claims.tokens)[3 * i + 2]);
        assert(form[6 + 3 * i] == fields[6 + 3 * i]@);
        assert(form[7 + 3 * i] == fields[7 + 3 * i]@);
        assert(form[8 + 3 * i] == fields[8 + 3 * i]@);
    }
    assert(claims_fit(intent@));
    assert(claims_of(intent@).tokens =~= claims.tokens) by {
        assert forall|i: int| 0 <= i < count implies claims_of(intent@).tokens[i]
            == claims.tokens[i] by {
            assert(token_fits(fields, i));
        }
    }
    assert(claims_of(intent@) =~= claims);
}

/// What a settlement claims gives its arguments back: behind a tag and a name they are the claimed
/// owner, the block's hash and number, the number of tokens, the tokens in their order and a flag;
/// and the command commits to all of them.
#[verifier::spinoff_prover]
pub proof fn law_claims_give_the_arguments_back(intent: &Intent, result: Option<Claims>)
    requires
        call_ensures(Claims::decode, (intent,), result),
        result is Some,
    ensures
        values(intent.arguments@) == seq![
            intent.arguments@[0]@,
            intent.arguments@[1]@,
            result->0.owner@,
            result->0.block_hash@,
            result->0.block_number as nat,
            result->0.tokens@.len(),
        ] + listed_tokens(result->0.tokens@) + seq![intent.arguments@.last()@],
        intent.arguments@.last()@ == 0 || intent.arguments@.last()@ == 1,
        intent.command@ == poseidon_array(
            seq![0x455445524e554d5f434f4d4d414e44, 1] + values(intent.arguments@),
        ),
{
    let fields = intent.arguments@;
    let form = values(fields);
    let tokens = result->0.tokens@;
    let built = seq![
        fields[0]@,
        fields[1]@,
        result->0.owner@,
        result->0.block_hash@,
        result->0.block_number as nat,
        tokens.len(),
    ] + listed_tokens(tokens) + seq![fields.last()@];
    lemma_listed_length(tokens);
    assert(tokens == claims_of(intent@).tokens);
    assert(built.len() == form.len());
    assert forall|i: int| 0 <= i < form.len() implies #[trigger] form[i] == built[i] by {
        assert(form[i] == fields[i]@);
        if 6 <= i < form.len() - 1 {
            let k = (i - 6) / 3;
            assert(0 <= k < tokens.len());
            lemma_listed_token(tokens, k);
            assert(token_fits(fields, k));
            assert(tokens[k] == token_at(fields, k));
            assert(built[i] == listed_tokens(tokens)[i - 6]);
            assert(i == 6 + 3 * k || i == 7 + 3 * k || i == 8 + 3 * k);
        }
    }
    assert(form =~= built);
}

/// The owner that a season's settlement claims for is the third of its arguments, behind a tag and a
/// name; what follows is the option that names no realm, or the option of a realm's number.
pub proof fn law_season_is_claimed_by_its_third_argument(intent: &Intent, result: Option<Felt>)
    requires
        call_ensures(season_owner, (intent,), result),
    ensures
        ({
            let arguments = intent.arguments@;
            let committed = intent.command@ == poseidon_array(
                seq![0x455445524e554d5f434f4d4d414e44, 1] + values(arguments),
            );
            let without = arguments.len() == 4 && arguments[3]@ == 1;
            let with = arguments.len() == 5 && arguments[3]@ == 0 && arguments[4]@ < 0x1_0000_0000;
            &&& result is Some <==> committed && (without || with)
            &&& result is Some ==> result->0 == arguments[2]
        }),
{
}

/// The owner that a village's settlement claims for is the second of its four arguments, behind a
/// tag; a number of sixteen bits and one of thirty-two follow.
pub proof fn law_village_is_claimed_by_its_second_argument(intent: &Intent, result: Option<Felt>)
    requires
        call_ensures(village_owner, (intent,), result),
    ensures
        ({
            let arguments = intent.arguments@;
            let committed = intent.command@ == poseidon_array(
                seq![0x455445524e554d5f434f4d4d414e44, 1] + values(arguments),
            );
            &&& result is Some <==> committed && arguments.len() == 4 && arguments[2]@ < 0x1_0000
                && arguments[3]@ < 0x1_0000_0000
            &&& result is Some ==> result->0 == arguments[1]
        }),
{
}

/// A season or a village is settled by the policy's owner alone, which is the policy's first element
/// and not zero; nothing else of the policy counts, and nothing is read for it.
pub proof fn law_policy_owner_settles_a_place(
    checks: &SettlementChecks,
    intent: &Intent,
    policy: &[Felt],
    season: Option<Felt>,
    village: Option<Felt>,
    result: Result<ClaimStage, SettlementError>,
)
    requires
        policy@.len() == 5,
        intent.arguments@.len() > 0,
        call_ensures(season_owner, (intent,), season),
        call_ensures(village_owner, (intent,), village),
        call_ensures(SettlementChecks::verify_claims, (checks, intent, policy), result),
    ensures
        intent.arguments@[0] == checks.season_tag ==> result is Ok && result->Ok_0
            == ClaimStage::Decided(policy@[0]@ != 0 && season == Some(policy@[0])),
        intent.arguments@[0] == checks.village_tag && intent.arguments@[0] != checks.season_tag
            ==> result is Ok && result->Ok_0 == ClaimStage::Decided(
            policy@[0]@ != 0 && village == Some(policy@[0]),
        ),
{
}

/// The policy's five elements are the owner, the cosmetics collection, the timelock, the limit on
/// cosmetics and the game's end. Claims of another owner are refused. Without a collection or a
/// timelock, or without tokens within the limit, the owner's claims are granted at once; more tokens
/// than the limit are refused, and a limit that is no byte is an error. Other tokens are read for,
/// from the first on, in the policy's collection; without an L2 to read from, that is an error.
#[verifier::spinoff_prover]
pub proof fn law_policy_decides_what_is_read(
    checks: &SettlementChecks,
    intent: &Intent,
    policy: &[Felt],
    claims: Option<Claims>,
    result: Result<ClaimStage, SettlementError>,
)
    requires
        call_ensures(Claims::decode, (intent,), claims),
        call_ensures(SettlementChecks::verify_claims, (checks, intent, policy), result),
        intent.arguments@.len() > 0 ==> intent.arguments@[0] != checks.season_tag
            && intent.arguments@[0] != checks.village_tag,
    ensures
        ({
            let (owner, collection, timelock, limit) = (
                policy@[0],
                policy@[1],
                policy@[2],
                policy@[3],
            );
            let owned = claims is Some && claims->0.owner == owner && owner@ != 0;
            let open = owned && collection@ != 0 && timelock@ != 0;
            let count = claims->0.tokens@.len();
            &&& policy@.len() != 5 <==> result == Err::<ClaimStage, SettlementError>(
                SettlementError::MalformedPolicy,
            )
            &&& policy@.len() == 5 && !owned ==> result is Ok && result->Ok_0
                == ClaimStage::Decided(false)
            &&& policy@.len() == 5 && owned && !open ==> result is Ok && result->Ok_0
                == ClaimStage::Decided(true)
            &&& policy@.len() == 5 && open && limit@ >= 256 ==> result is Err && result->Err_0
                == SettlementError::InvalidLimit
            &&& policy@.len() == 5 && open && limit@ < 256 && count > limit@ ==> result is Ok
                && result->Ok_0 == ClaimStage::Decided(false)
            &&& policy@.len() == 5 && open && limit@ < 256 && count == 0 ==> result is Ok
                && result->Ok_0 == ClaimStage::Decided(true)
            &&& policy@.len() == 5 && open && limit@ < 256 && 0 < count <= limit@ && checks.l2
                is None ==> result is Err && result->Err_0 == SettlementError::MissingSource
            &&& policy@.len() == 5 && open && limit@ < 256 && 0 < count <= limit@ && checks.l2
                is Some ==> result is Ok && result->Ok_0 is ReadFinalized && {
                let check = result->Ok_0->ReadFinalized_0;
                &&& check.claims@ == claims->0@
                &&& check.collection == collection
                &&& check.index == 0
            }
        }),
{
    if result is Ok {
        assert(result->Ok_0@ == claim_start(*checks, intent@, policy@)->Ok_0);
    }
}

/// A token is read for in the policy's collection at the claimed block by its number, low limb
/// first: its owner by one view, then its attributes by another.
pub proof fn law_token_is_read_by_its_number(stage: &ClaimStage, result: Option<(ViewCall, Felt)>)
    requires
        stage.valid(),
        call_ensures(ClaimStage::token_read, (stage,), result),
    ensures
        ({
            let reads_owner = *stage is ReadOwner;
            let reads_attributes = *stage is ReadAttributes;
            let check = if reads_owner {
                stage->ReadOwner_0
            } else {
                stage->ReadAttributes_0
            };
            &&& result is Some <==> reads_owner || reads_attributes
            &&& result is Some ==> {
                let (call, block_hash) = result->0;
                &&& call.contract == check.collection
                &&& call.calldata@.len() == 2
                &&& call.calldata@[0]@ == check.claims.tokens@[check.index as int].id
                &&& call.calldata@[1]@ == 0
                &&& block_hash == check.claims.block_hash
                &&& reads_owner ==> call.entry_point@ == "owner_of"@
                &&& reads_attributes ==> call.entry_point@ == "get_metadata_raw"@
            }
        }),
{
    if result is Some {
        let form = values((result->0).0.calldata@);
        assert(form.len() == 2);
        assert(form[0] == (result->0).0.calldata@[0]@);
        assert(form[1] == (result->0).0.calldata@[1]@);
    }
}

/// Claims are held against a finalized block: one that is not confirmed or not finalized is an
/// error, and one with another hash or number refuses the claims. Where it is the claimed block, a
/// token of another owner or without attributes refuses them, and the first of the others is read
/// for, until all are.
pub proof fn law_claims_are_held_against_the_finalized_block(
    check: ClaimCheck,
    block: FinalizedBlock,
    result: Result<ClaimStage, SettlementError>,
)
    requires
        check.index == 0,
        call_ensures(
            ClaimStage::step,
            (ClaimStage::ReadFinalized(check), &ClaimEvent::Finalized(block)),
            result,
        ),
    ensures
        ({
            let first = check.claims.tokens@[0];
            block matches FinalizedBlock::Block { accepted_on_l1, block_hash, block_number } ==> {
                let same = block_hash == check.claims.block_hash && block_number
                    == check.claims.block_number;
                &&& !accepted_on_l1 <==> result == Err::<ClaimStage, SettlementError>(
                    SettlementError::Unfinalized,
                )
                &&& accepted_on_l1 && !same ==> result is Ok && result->Ok_0
                    == ClaimStage::Decided(false)
                &&& accepted_on_l1 && same && check.claims.tokens@.len() == 0 ==> result is Ok
                    && result->Ok_0 == ClaimStage::Decided(true)
                &&& accepted_on_l1 && same && check.claims.tokens@.len() > 0 && (first.owner
                    != check.claims.owner || first.attributes == 0) ==> result is Ok
                    && result->Ok_0 == ClaimStage::Decided(false)
                &&& accepted_on_l1 && same && check.claims.tokens@.len() > 0 && first.owner
                    == check.claims.owner && first.attributes != 0 ==> result is Ok
                    && result->Ok_0 is ReadOwner && result->Ok_0->ReadOwner_0@ == check@
            }
        }),
        block is PreConfirmed ==> result == Err::<ClaimStage, SettlementError>(
            SettlementError::PreConfirmed,
        ),
{
    if result is Ok {
        assert(result->Ok_0@ == claim_next(
            StageView::ReadFinalized(check@),
            ClaimEvent::Finalized(block),
        )->Ok_0);
    }
}

/// A view that does not return the claimed owner, or the token's claimed attributes, and nothing
/// beside it refuses the claims. Where both do, the next token is read for in the same way, and after
/// the last the claims are granted.
#[verifier::spinoff_prover]
pub proof fn law_views_confirm_a_token(
    check: ClaimCheck,
    event: &ClaimEvent,
    owned: Result<ClaimStage, SettlementError>,
    described: Result<ClaimStage, SettlementError>,
)
    requires
        check.index < check.claims.tokens@.len(),
        *event is Values,
        call_ensures(ClaimStage::step, (ClaimStage::ReadOwner(check), event), owned),
        call_ensures(ClaimStage::step, (ClaimStage::ReadAttributes(check), event), described),
    ensures
        ({
            let found = event->Values_0;
            let single = found is Some && found->0@.len() == 1;
            let token = check.claims.tokens@[check.index as int];
            let next = check.claims.tokens@[check.index + 1];
            let last = check.index + 1 == check.claims.tokens@.len();
            let names_owner = single && found->0@[0] == check.claims.owner;
            let names_attributes = single && found->0@[0]@ == token.attributes;
            &&& owned is Ok && described is Ok
            &&& names_owner ==> owned->Ok_0 is ReadAttributes && owned->Ok_0->ReadAttributes_0@
                == check@
            &&& !names_owner ==> owned->Ok_0 == ClaimStage::Decided(false)
            &&& !names_attributes ==> described->Ok_0 == ClaimStage::Decided(false)
            &&& names_attributes && last ==> described->Ok_0 == ClaimStage::Decided(true)
            &&& names_attributes && !last && (next.owner != check.claims.owner || next.attributes
                == 0) ==> described->Ok_0 == ClaimStage::Decided(false)
            &&& names_attributes && !last && next.owner == check.claims.owner && next.attributes
                != 0 ==> described->Ok_0 is ReadOwner && {
                let moved = described->Ok_0->ReadOwner_0;
                &&& moved.claims@ == check.claims@
                &&& moved.collection == check.collection
                &&& moved.index == check.index + 1
            }
        }),
{
    assert(owned->Ok_0@ == claim_next(StageView::ReadOwner(check@), *event)->Ok_0);
    assert(described->Ok_0@ == claim_next(StageView::ReadAttributes(check@), *event)->Ok_0);
}

/// A command settles exactly where its arguments start with one of the three tags.
pub proof fn law_settlement_is_told_by_its_tag(
    checks: &SettlementChecks,
    intent: &Intent,
    result: bool,
)
    requires
        call_ensures(SettlementChecks::is_settlement, (checks, intent), result),
    ensures
        result <==> intent.arguments@.len() > 0 && seq![
            checks.tag,
            checks.season_tag,
            checks.village_tag,
        ].contains(intent.arguments@[0]),
{
    let tags = seq![checks.tag, checks.season_tag, checks.village_tag];
    assert(tags[0] == checks.tag && tags[1] == checks.season_tag && tags[2] == checks.village_tag);
}

/// Whether the first command with a name stands at a place.
pub open spec fn first_command(commands: Seq<MemberView>, name: Seq<char>, at: int) -> bool {
    &&& 0 <= at < commands.len()
    &&& commands[at].name == Some(name)
    &&& forall|j: int| 0 <= j < at ==> (#[trigger] commands[j]).name != Some(name)
}

/// Whether the first type with a name stands at a place.
pub open spec fn first_type(types: Seq<TypeView>, name: Seq<char>, at: int) -> bool {
    &&& 0 <= at < types.len()
    &&& types[at].name == name
    &&& forall|j: int| 0 <= j < at ==> (#[trigger] types[j]).name != name
}

/// Whether the first type with a name has exactly the given members, each a name and a type.
pub open spec fn defines(
    types: Seq<TypeView>,
    name: Seq<char>,
    members: Seq<(Seq<char>, Seq<char>)>,
) -> bool {
    exists|at: int| #[trigger]
        first_type(types, name, at) && types[at].members is Some && types[at].members->0
            == Seq::new(
            members.len(),
            |i: int| MemberView { name: Some(members[i].0), kind: Some(members[i].1) },
        )
}

/// Whether the first command with a name stands at a place and its payload has exactly the given
/// members.
pub open spec fn lays_out(
    schema: SchemaView,
    name: Seq<char>,
    at: int,
    members: Seq<(Seq<char>, Seq<char>)>,
) -> bool {
    &&& schema.commands is Some
    &&& first_command(schema.commands->0, name, at)
    &&& schema.commands->0[at].kind is Some
    &&& defines(schema.types, schema.commands->0[at].kind->0, members)
}

proof fn lemma_first_type(types: Seq<TypeView>, name: Seq<char>, i: int, at: int)
    requires
        0 <= i <= at,
        first_type(types, name, at),
    ensures
        members_of(types, name, i) == types[at].members,
    decreases at - i,
{
    if i < at {
        lemma_first_type(types, name, i + 1, at);
    }
}

proof fn lemma_type_is_found(types: Seq<TypeView>, name: Seq<char>, i: int) -> (at: int)
    requires
        0 <= i,
        forall|j: int| 0 <= j < i && j < types.len() ==> (#[trigger] types[j]).name != name,
        members_of(types, name, i) is Some,
    ensures
        first_type(types, name, at),
        types[at].members == members_of(types, name, i),
    decreases types.len() - i,
{
    if types[i].name == name {
        i
    } else {
        lemma_type_is_found(types, name, i + 1)
    }
}

proof fn lemma_defines(
    types: Seq<TypeView>,
    name: Seq<char>,
    members: Seq<(Seq<char>, Seq<char>)>,
)
    ensures
        defines(types, name, members) <==> members_fault(types, name, members) is None,
{
    let wanted = Seq::new(
        members.len(),
        |i: int| MemberView { name: Some(members[i].0), kind: Some(members[i].1) },
    );
    if defines(types, name, members) {
        let at = choose|at: int| #[trigger]
            first_type(types, name, at) && types[at].members is Some && types[at].members->0
                == wanted;
        lemma_first_type(types, name, 0, at);
    }
    if members_fault(types, name, members) is None {
        let at = lemma_type_is_found(types, name, 0);
        let found = types[at].members->0;
        assert forall|i: int| 0 <= i < found.len() implies #[trigger] found[i] == wanted[i] by {
            assert(is_member(found[i], members[i]));
        }
        assert(found =~= wanted);
    }
}

proof fn lemma_first_command(commands: Seq<MemberView>, name: Seq<char>, i: int, at: int)
    requires
        0 <= i <= at,
        forall|j: int| 0 <= j < i && j < commands.len() ==> (#[trigger] commands[j]).name != Some(
            name,
        ),
    ensures
        first_command(commands, name, at) <==> command_at(commands, name, i) == Some(at),
    decreases commands.len() - i,
{
    if i < commands.len() && commands[i].name != Some(name) {
        if i < at {
            lemma_first_command(commands, name, i + 1, at);
        } else if i + 1 < commands.len() {
            lemma_command_stands_behind(commands, name, i + 1);
        }
    }
}

proof fn lemma_command_stands_behind(commands: Seq<MemberView>, name: Seq<char>, i: int)
    requires
        0 <= i,
    ensures
        command_at(commands, name, i) matches Some(at) ==> at >= i,
    decreases commands.len() - i,
{
    if i < commands.len() && commands[i].name != Some(name) {
        lemma_command_stands_behind(commands, name, i + 1);
    }
}

proof fn lemma_lays_out(
    schema: SchemaView,
    name: Seq<char>,
    at: int,
    members: Seq<(Seq<char>, Seq<char>)>,
    missing: SchemaErrorView,
    untyped: SchemaErrorView,
)
    requires
        schema.commands is Some,
        0 <= at,
    ensures
        lays_out(schema, name, at, members) <==> command_fault(
            schema,
            name,
            members,
            missing,
            untyped,
        ) is None && command_at(schema.commands->0, name, 0) == Some(at),
{
    lemma_first_command(schema.commands->0, name, 0, at);
    if schema.commands->0[at].kind is Some {
        lemma_defines(schema.types, schema.commands->0[at].kind->0, members);
    }
}

/// A schema fixes the settlement commands exactly where it lists them, each with a payload of the
/// known members in their order, and defines the accepted cosmetic by its members. The commands'
/// tags are then their places: the first of each name counts.
#[verifier::spinoff_prover]
pub proof fn law_schema_fixes_the_commands(
    schema: &Schema,
    blitz: nat,
    season: nat,
    village: nat,
    result: Result<SettlementChecks, SchemaError>,
)
    requires
        call_ensures(SettlementChecks::check, (schema,), result),
    ensures
        (result is Ok && result->Ok_0.tag@ == blitz && result->Ok_0.season_tag@ == season
            && result->Ok_0.village_tag@ == village) <==> ({
            let address = "core::starknet::contract_address::ContractAddress"@;
            let cosmetics = "core::array::Span::<world_native::settlement::AcceptedCosmetic>"@;
            &&& lays_out(
                schema@,
                "SettleBlitz"@,
                blitz as int,
                seq![
                    ("name"@, "core::felt252"@),
                    ("owner"@, address),
                    ("cosmetics_block_hash"@, "core::felt252"@),
                    ("cosmetics_block_number"@, "core::integer::u64"@),
                    ("cosmetics"@, cosmetics),
                    ("grant_starting_troops"@, "core::bool"@),
                ],
            )
            &&& lays_out(
                schema@,
                "SettleSeason"@,
                season as int,
                seq![
                    ("name"@, "core::felt252"@),
                    ("owner"@, address),
                    ("selected_realm"@, "core::option::Option::<core::integer::u32>"@),
                ],
            )
            &&& lays_out(
                schema@,
                "SettleVillage"@,
                village as int,
                seq![
                    ("owner"@, address),
                    ("pass_id"@, "core::integer::u16"@),
                    ("connected_realm_entity_id"@, "core::integer::u32"@),
                ],
            )
            &&& defines(
                schema@.types,
                "world_native::settlement::AcceptedCosmetic"@,
                seq![
                    ("token_id"@, "core::integer::u128"@),
                    ("owner"@, address),
                    ("attributes"@, "core::integer::u128"@),
                ],
            )
        }),
        result is Ok ==> result->Ok_0.l2 is None,
{
    let view = schema@;
    if view.commands is Some {
        lemma_lays_out(
            view,
            "SettleBlitz"@,
            blitz as int,
            settlement_members(),
            SchemaErrorView::MissingSettlement,
            SchemaErrorView::MissingSettlementPayload,
        );
        lemma_lays_out(
            view,
            "SettleSeason"@,
            season as int,
            season_members(),
            SchemaErrorView::MissingSeason,
            SchemaErrorView::MissingSeasonPayload,
        );
        lemma_lays_out(
            view,
            "SettleVillage"@,
            village as int,
            village_members(),
            SchemaErrorView::MissingVillage,
            SchemaErrorView::MissingVillagePayload,
        );
    }
    lemma_defines(
        view.types,
        "world_native::settlement::AcceptedCosmetic"@,
        cosmetic_members(),
    );
}

/// A schema's text and an L2 address are loaded exactly where the text is a schema that fixes the
/// settlement commands and the address, where there is one, is a URL: the commands stand where the
/// schema has them, and the address is kept as it is.
pub proof fn law_loading_keeps_the_schema_and_the_address(
    text: &str,
    l2: Option<&str>,
    read: Result<Schema, String>,
    checked: Result<SettlementChecks, SchemaError>,
    result: Result<SettlementChecks, SchemaError>,
)
    requires
        call_ensures(Schema::read, (text,), read),
        read is Ok ==> call_ensures(SettlementChecks::check, (&read->Ok_0,), checked),
        call_ensures(SettlementChecks::load, (text, l2), result),
    ensures
        result is Ok <==> read is Ok && checked is Ok && (l2 is Some ==> url_error(l2->0@) is None),
        result is Ok ==> result->Ok_0.tag@ == checked->Ok_0.tag@ && result->Ok_0.season_tag@
            == checked->Ok_0.season_tag@ && result->Ok_0.village_tag@
            == checked->Ok_0.village_tag@,
        result is Ok && l2 is None ==> result->Ok_0.l2 is None,
        result is Ok && l2 is Some ==> result->Ok_0.l2 is Some && result->Ok_0.l2->0@ == l2->0@,
        read is Err ==> result is Err && result->Err_0@ == SchemaErrorView::Json(read->Err_0@),
        read is Ok && checked is Err ==> result is Err && result->Err_0@ == checked->Err_0@,
        read is Ok && checked is Ok && l2 is Some && url_error(l2->0@) is Some ==> result is Err
            && result->Err_0@ == SchemaErrorView::Url(url_error(l2->0@)->0),
{
}

/// A schema's document is read by its keys: its commands are the variants of the type
/// `world_native::commands::Command` among its types, and each type has the members that are listed
/// under it; a variant and a member each have a name and a type.
#[verifier::spinoff_prover]
pub proof fn law_schema_is_read_by_its_keys(text: &str, result: Result<Schema, String>)
    requires
        call_ensures(Schema::read, (text,), result),
    ensures
        result is Ok <==> text_layer(text@) is Ok,
        result is Err ==> text_layer(text@) == Err::<JsonView, Seq<char>>(result->Err_0@),
        result is Ok ==> {
            let types = json_field(text@, "types"@);
            let command = json_field(types->0, "world_native::commands::Command"@);
            let variants = json_array(command->0, "variants"@);
            let listed = types is Some && command is Some && variants is Some;
            let schema = result->Ok_0@;
            &&& types is None ==> schema.types.len() == 0
            &&& schema.commands is Some <==> listed
            &&& listed ==> schema.commands->0.len() == variants->0.len() && forall|i: int|
                0 <= i < variants->0.len() ==> (#[trigger] schema.commands->0[i]).name == json_text(
                    variants->0[i],
                    "name"@,
                ) && schema.commands->0[i].kind == json_text(variants->0[i], "type"@)
            &&& types is Some && text_layer(types->0) is Ok && text_layer(types->0)->Ok_0
                is Object ==> {
                let fields = text_layer(types->0)->Ok_0->Object_0;
                &&& schema.types.len() == fields.len()
                &&& forall|i: int|
                    0 <= i < fields.len() ==> (#[trigger] schema.types[i]).name == fields[i].0 && (
                    schema.types[i].members is Some <==> json_array(fields[i].1, "members"@)
                        is Some)
            }
        },
{
    if result is Ok {
        let types = json_field(text@, "types"@);
        assert(result->Ok_0@ == json_schema(text@)->Ok_0);
        if types is Some && text_layer(types->0) is Ok && text_layer(types->0)->Ok_0 is Object {
            let fields = text_layer(types->0)->Ok_0->Object_0;
            assert(result->Ok_0@.types == json_types(types->0));
            assert forall|i: int| 0 <= i < fields.len() implies (
            #[trigger] result->Ok_0@.types[i]).name == fields[i].0 && (
            result->Ok_0@.types[i].members is Some <==> json_array(fields[i].1, "members"@)
                is Some) by {
                assert(json_types(types->0)[i].members == json_members(fields[i].1, "members"@));
            }
        }
    }
}

/// A member that a type lists has the name and the type that its entry gives it.
pub proof fn law_members_are_read_by_their_keys(
    text: &str,
    result: Result<Schema, String>,
    i: int,
    k: int,
)
    requires
        call_ensures(Schema::read, (text,), result),
        result is Ok,
        0 <= i < result->Ok_0@.types.len(),
        result->Ok_0@.types[i].members is Some,
        0 <= k < result->Ok_0@.types[i].members->0.len(),
    ensures
        ({
            let types = json_field(text@, "types"@)->0;
            let entry = text_layer(types)->Ok_0->Object_0[i].1;
            let items = json_array(entry, "members"@)->0;
            let member = result->Ok_0@.types[i].members->0[k];
            &&& items.len() == result->Ok_0@.types[i].members->0.len()
            &&& member.name == json_text(items[k], "name"@)
            &&& member.kind == json_text(items[k], "type"@)
        }),
{
    assert(result->Ok_0@ == json_schema(text@)->Ok_0);
}

/// A type has the expected members exactly where the first type of its name lists them and no others,
/// in their order; a type that is not there, or lists none, is missing.
pub proof fn law_members_are_required_in_order(
    types: &[TypeDefinition],
    name: &str,
    expected: &[(&'static str, &'static str)],
    result: Result<(), SchemaError>,
)
    requires
        call_ensures(require_members, (types, name, expected), result),
    ensures
        result is Ok <==> defines(
            type_views(types@),
            name@,
            Seq::new(expected@.len(), |i: int| (expected@[i].0@, expected@[i].1@)),
        ),
        result is Err && result->Err_0@ != SchemaErrorView::MissingType ==> result->Err_0@
            == SchemaErrorView::Changed(name@),
{
    lemma_defines(type_views(types@), name@, expected_views(expected@));
    assert(expected_views(expected@) =~= Seq::new(
        expected@.len(),
        |i: int| (expected@[i].0@, expected@[i].1@),
    ));
}

/// A settlement's errors are told in words of their own.
pub proof fn law_settlement_errors_have_their_words(error: &SettlementError, words: &'static str)
    requires
        call_ensures(SettlementError::message, (error,), words),
    ensures
        *error is MalformedPolicy ==> words@ == "malformed settlement admission policy"@,
        *error is InvalidLimit ==> words@ == "invalid cosmetic limit"@,
        *error is MissingSource ==> words@ == "cosmetic admission requires RANDOMNESS_L2_RPC_URL"@,
        *error is PreConfirmed ==> words@
            == "L2 provider returned a pre-confirmed block for l1_accepted"@,
        *error is Unfinalized ==> words@
            == "L2 provider returned an unfinalized block for l1_accepted"@,
{
}

/// A schema's errors are told in words of their own: those of the reader where it is no JSON or its
/// address no URL, and the name of the type whose members changed.
pub proof fn law_schema_errors_have_their_words(error: &SchemaError, words: String)
    requires
        call_ensures(SchemaError::message, (error,), words),
    ensures
        *error matches SchemaError::Json(reason) ==> words@ == reason@,
        *error matches SchemaError::Url(reason) ==> words@ == reason@,
        *error matches SchemaError::Changed(name) ==> words@ == "native settlement schema changed: "@
            + name@,
        *error is MissingCommands ==> words@ == "missing native command schema"@,
        *error is MissingSettlement ==> words@ == "missing settlement command"@,
        *error is MissingSettlementPayload ==> words@ == "missing settlement payload type"@,
        *error is MissingSeason ==> words@ == "missing season settlement command"@,
        *error is MissingSeasonPayload ==> words@ == "missing season settlement payload"@,
        *error is MissingVillage ==> words@ == "missing village settlement command"@,
        *error is MissingVillagePayload ==> words@ == "missing village payload"@,
        *error is MissingType ==> words@ == "missing native settlement type"@,
{
}

/// An event that the check of claims does not wait for changes nothing, and a decision stands.
pub proof fn law_unawaited_events_leave_a_claim(
    stage: ClaimStage,
    event: &ClaimEvent,
    result: Result<ClaimStage, SettlementError>,
)
    requires
        stage.valid(),
        call_ensures(ClaimStage::step, (stage, event), result),
        !(stage is ReadFinalized && *event is Finalized),
        !((stage is ReadOwner || stage is ReadAttributes) && *event is Values),
    ensures
        result is Ok,
        result->Ok_0@ == stage@,
{
}

} // verus!

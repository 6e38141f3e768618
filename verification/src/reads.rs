use vstd::prelude::*;
use crate::commands::{CommandOutput, params_model, room_types_params};
use crate::config::opt_view;
use crate::error::AppError;
use crate::fixtures::{is_first_with_id, spec_found, spec_summarize};
use crate::json::{JsonValue, get_array};
use crate::outputs::{fixture_read, fixture_read_one};
use crate::requests::{
    api_collection, collection_path, item_path, law_fixture_key_names_its_collection, lemma_collection_paths,
    spec_fixture_key, spec_item_path,
};
use crate::error::is_error;

verus! {

/// The plain reads of the CLI: a whole collection, or one item by its
/// identifier.
pub enum ReadCommand {
    AccountGet,
    AgentsList,
    RoomTypesList { show_photos: bool, portfolio_id: Option<String> },
    RoomTypesGet(String),
    RoomsList,
    RoomsGet(String),
    RatePlansList,
    ReservationsGet(String),
    ReservationsInHouse,
    WebhooksList,
    WebhooksGet(String),
}

/// How a read is answered: the command's name, the API path and query,
/// the fixture entry that stands for it, and, for a single item, its
/// identifier and the fields that may hold it.
pub struct ReadPlan {
    pub command: &'static str,
    pub path: String,
    pub params: Vec<(String, String)>,
    pub fixture_key: &'static str,
    pub item: Option<(String, Vec<&'static str>)>,
}

/// Whether `p` reads a whole collection: `command`, `path` and `key`, with
/// the query `params`.
pub open spec fn reads_all(
    p: ReadPlan,
    command: Seq<char>,
    path: Seq<char>,
    params: Seq<(Seq<char>, Seq<char>)>,
    key: Seq<char>,
) -> bool {
    &&& p.command@ == command
    &&& p.path@ == path
    &&& params_model(p.params@) == params
    &&& p.fixture_key@ == key
    &&& p.item is None
}

/// Whether `p` reads the item `id` of `collection`: `command` on
/// `/<collection>/<encoded id>`, answered in fixture mode by the row of
/// entry `key` whose `fields` hold the identifier.
pub open spec fn reads_one(
    p: ReadPlan,
    command: Seq<char>,
    collection: Seq<char>,
    id: Seq<char>,
    key: Seq<char>,
    fields: Seq<&str>,
) -> bool {
    &&& p.command@ == command
    &&& p.path@ == spec_item_path(collection, id)
    &&& p.params@.len() == 0
    &&& p.fixture_key@ == key
    &&& p.item matches Some((i, f)) && i@ == id && f@ == fields
}

/// The plan of each read.
pub open spec fn planned(c: ReadCommand, p: ReadPlan) -> bool {
    match c {
        ReadCommand::AccountGet => reads_all(p, "account.get"@, "/property"@, Seq::empty(), "account"@),
        ReadCommand::AgentsList => reads_all(p, "agents.list"@, "/agents"@, Seq::empty(), "agents"@),
        ReadCommand::RoomTypesList { show_photos, portfolio_id } => reads_all(
            p,
            "room-types.list"@,
            "/room-types"@,
            (if show_photos {
                seq![("showPhotos"@, "true"@)]
            } else {
                Seq::empty()
            }) + match opt_view(portfolio_id) {
                Some(id) => seq![("portfolioId"@, id)],
                None => Seq::empty(),
            },
            "room_types"@,
        ),
        ReadCommand::RoomTypesGet(id) => reads_one(
            p,
            "room-types.get"@,
            "room-types"@,
            id@,
            "room_types"@,
            seq!["roomTypeId", "id"],
        ),
        ReadCommand::RoomsList => reads_all(p, "rooms.list"@, "/rooms"@, Seq::empty(), "rooms"@),
        ReadCommand::RoomsGet(id) => reads_one(p, "rooms.get"@, "rooms"@, id@, "rooms"@, seq!["roomId", "id"]),
        ReadCommand::RatePlansList => reads_all(p, "rate-plans.list"@, "/rate-plans"@, Seq::empty(), "rate_plans"@),
        ReadCommand::ReservationsGet(id) => reads_one(
            p,
            "reservations.get"@,
            "reservations"@,
            id@,
            "reservations"@,
            seq!["reservationId", "id"],
        ),
        ReadCommand::ReservationsInHouse => reads_all(
            p,
            "reservations.in-house"@,
            "/reservations-inhouse"@,
            Seq::empty(),
            "reservations_inhouse"@,
        ),
        ReadCommand::WebhooksList => reads_all(p, "webhooks.list"@, "/webhooks"@, Seq::empty(), "webhooks"@),
        ReadCommand::WebhooksGet(id) => reads_one(
            p,
            "webhooks.get"@,
            "webhooks"@,
            id@,
            "webhooks"@,
            seq!["id", "webhookId"],
        ),
    }
}

fn all(command: &'static str, path: &str, params: Vec<(String, String)>, key: &'static str) -> (r: ReadPlan)
    ensures
        r.command == command,
        r.path@ == path@,
        r.params@ == params@,
        r.fixture_key == key,
        r.item is None,
{
    ReadPlan { command, path: String::from_str(path), params, fixture_key: key, item: None }
}

fn one(
    command: &'static str,
    collection: &str,
    id: &String,
    key: &'static str,
    first: &'static str,
    second: &'static str,
) -> (r: ReadPlan)
    ensures
        r.command == command,
        r.path@ == spec_item_path(collection@, id@),
        r.params@.len() == 0,
        r.fixture_key == key,
        r.item matches Some((i, f)) && i@ == id@ && f@ == seq![first, second],
{
    let mut fields: Vec<&'static str> = Vec::new();
    fields.push(first);
    fields.push(second);
    assert(fields@ =~= seq![first, second]);
    ReadPlan {
        command,
        path: item_path(collection, id.as_str()),
        params: Vec::new(),
        fixture_key: key,
        item: Some((id.clone(), fields)),
    }
}

/// How a plain read is answered.
pub fn read_plan(c: &ReadCommand) -> (r: ReadPlan)
    ensures
        planned(*c, r),
{
    let r = match c {
        ReadCommand::AccountGet => all("account.get", "/property", Vec::new(), "account"),
        ReadCommand::AgentsList => all("agents.list", "/agents", Vec::new(), "agents"),
        ReadCommand::RoomTypesList { show_photos, portfolio_id } => all(
            "room-types.list",
            "/room-types",
            room_types_params(*show_photos, portfolio_id),
            "room_types",
        ),
        ReadCommand::RoomTypesGet(id) => one("room-types.get", "room-types", id, "room_types", "roomTypeId", "id"),
        ReadCommand::RoomsList => all("rooms.list", "/rooms", Vec::new(), "rooms"),
        ReadCommand::RoomsGet(id) => one("rooms.get", "rooms", id, "rooms", "roomId", "id"),
        ReadCommand::RatePlansList => all("rate-plans.list", "/rate-plans", Vec::new(), "rate_plans"),
        ReadCommand::ReservationsGet(id) => one(
            "reservations.get",
            "reservations",
            id,
            "reservations",
            "reservationId",
            "id",
        ),
        ReadCommand::ReservationsInHouse => all(
            "reservations.in-house",
            "/reservations-inhouse",
            Vec::new(),
            "reservations_inhouse",
        ),
        ReadCommand::WebhooksList => all("webhooks.list", "/webhooks", Vec::new(), "webhooks"),
        ReadCommand::WebhooksGet(id) => one("webhooks.get", "webhooks", id, "webhooks", "id", "webhookId"),
    };
    assert(r.params@.len() == 0 ==> params_model(r.params@) =~= Seq::empty());
    r
}

/// Each plain read names the fixture entry of the collection it reads: a
/// whole collection is read at that collection's path, which the raw-read
/// routing answers by the same entry (the property by `account`); one item
/// is read under that collection's name.
pub proof fn law_read_names_its_collection(c: ReadCommand, p: ReadPlan)
    requires
        planned(c, p),
    ensures
        p.item is None ==> spec_fixture_key(p.path@) == Some(p.fixture_key@),
        p.item is None && !(c is AccountGet) ==> p.path@ == collection_path(p.fixture_key@),
        p.item matches Some((id, _)) ==> p.path@ == spec_item_path(api_collection(p.fixture_key@), id@),
{
    lemma_collection_paths();
    law_fixture_key_names_its_collection(p.path@);
}

/// A plain read answered from the fixture document: the whole entry (see
/// `fixture_read`), or the item found in it (see `fixture_read_one`).
pub fn read_fixture(fixture: &JsonValue, plan: &ReadPlan) -> (r: Result<CommandOutput, AppError>)
    ensures
        match fixture@.get(plan.fixture_key@) {
            None => r matches Err(e) && is_error(e, "fixture.missing"@, "Missing fixture key "@ + plan.fixture_key@),
            Some(v) => match plan.item {
                None => r matches Ok(out) && out.command@ == plan.command@ && out.data@ == v && out.human@
                    == spec_summarize(plan.command@, v) && out.source@ == "fixture"@ && out.extra@.len() == 0,
                Some((id, fields)) => match get_array(v, "data"@) {
                    None => r matches Err(e) && is_error(e, "fixture.invalid"@, "Fixture collection has no data[]"@),
                    Some(items) => if exists|i: int| is_first_with_id(items, id@, fields@, i) {
                        r matches Ok(out) && out.command@ == plan.command@ && out.data@ == spec_found(
                            v,
                            items[choose|i: int| is_first_with_id(items, id@, fields@, i)],
                        ) && out.human@ == spec_summarize(plan.command@, out.data@) && out.source@ == "fixture"@
                            && out.extra@.len() == 0
                    } else {
                        r matches Err(e) && is_error(e, "not.found"@, id@ + " was not found in fixture data"@)
                    },
                },
            },
        },
{
    match &plan.item {
        None => fixture_read(fixture, plan.command, plan.fixture_key),
        Some((id, fields)) => fixture_read_one(fixture, plan.command, plan.fixture_key, id.as_str(), fields.as_slice()),
    }
}

} // verus!

use vstd::prelude::*;
use crate::config::{Runtime, opt_view};
use crate::error::{AppError, is_error};
use crate::fixtures::{spec_summarize, summarize};
use crate::json::{
    Json, JsonNumber, JsonValue, entries_model, get_array, get_str, items_model, json_str, json_u64,
    lemma_items_model, push_entry, set_entry_in, set_member, set_entry,
};
use crate::redact::clone_json;
use crate::requests::{scoped_path, spec_item_path};
use crate::text::{chars_of, concat, is_digit};

verus! {

/// Whether a text is a date written `YYYY-MM-DD`: ten characters, `-` at
/// the fifth and the eighth, ASCII digits elsewhere.
pub open spec fn date_shaped(s: Seq<char>) -> bool {
    &&& s.len() == 10
    &&& s[4] == '-'
    &&& s[7] == '-'
    &&& forall|i: int| 0 <= i < 10 && i != 4 && i != 7 ==> is_digit(#[trigger] s[i])
}

/// Accepts a date written `YYYY-MM-DD`; refuses anything else with
/// `date.invalid`, naming the option by `label`.
pub fn validate_date(value: &str, label: &str) -> (r: Result<(), AppError>)
    ensures
        date_shaped(value@) ==> r is Ok,
        !date_shaped(value@) ==> (r matches Err(e) && is_error(
            e,
            "date.invalid"@,
            label@ + " must be formatted as YYYY-MM-DD"@,
        )),
{
    let cs = chars_of(value);
    let mut ok = cs.len() == 10;
    if ok {
        ok = cs[4] == '-' && cs[7] == '-';
    }
    let mut i: usize = 0;
    while ok && i < 10
        invariant
            cs@ == value@,
            i <= 10,
            ok ==> cs@.len() == 10 && cs@[4] == '-' && cs@[7] == '-',
            ok ==> forall|j: int| 0 <= j < i && j != 4 && j != 7 ==> is_digit(#[trigger] cs@[j]),
            !ok ==> !date_shaped(value@),
        decreases 10 - i,
    {
        if i != 4 && i != 7 {
            let c = cs[i];
            if !('0' <= c && c <= '9') {
                ok = false;
            }
        }
        i = i + 1;
    }
    if ok {
        Ok(())
    } else {
        let m = concat(label, " must be formatted as YYYY-MM-DD");
        Err(AppError::new("date.invalid", m.as_str()))
    }
}

/// How a reservation query selects by date.
#[derive(Clone, Copy, PartialEq, Eq, Debug)]
pub enum ReservationDateType {
    CheckIn,
    CheckOut,
    Updated,
}

impl ReservationDateType {
    /// The API's name for the value.
    pub open spec fn spec_api_value(self) -> Seq<char> {
        match self {
            ReservationDateType::CheckIn => "checkIn"@,
            ReservationDateType::CheckOut => "checkOut"@,
            ReservationDateType::Updated => "updated"@,
        }
    }

    /// The value of the API's `dateType` parameter.
    pub fn api_value(self) -> (r: &'static str)
        ensures
            r@ == self.spec_api_value(),
    {
        match self {
            ReservationDateType::CheckIn => "checkIn",
            ReservationDateType::CheckOut => "checkOut",
            ReservationDateType::Updated => "updated",
        }
    }
}

/// How a room-block query selects by date.
#[derive(Clone, Copy, PartialEq, Eq, Debug)]
pub enum BlockDateType {
    Start,
    End,
    InBetween,
}

impl BlockDateType {
    /// The API's name for the value.
    pub open spec fn spec_api_value(self) -> Seq<char> {
        match self {
            BlockDateType::Start => "start"@,
            BlockDateType::End => "end"@,
            BlockDateType::InBetween => "inBetween"@,
        }
    }

    /// The value of the API's `dateType` parameter.
    pub fn api_value(self) -> (r: &'static str)
        ensures
            r@ == self.spec_api_value(),
    {
        match self {
            BlockDateType::Start => "start",
            BlockDateType::End => "end",
            BlockDateType::InBetween => "inBetween",
        }
    }
}

/// The events a webhook can follow.
#[derive(Clone, Copy, PartialEq, Eq, Debug)]
pub enum WebhookType {
    Reservations,
    Blocks,
    Rooms,
    Messages,
    RoomTypes,
}

impl WebhookType {
    /// The API's name for the value.
    pub open spec fn spec_api_value(self) -> Seq<char> {
        match self {
            WebhookType::Reservations => "reservations"@,
            WebhookType::Blocks => "blocks"@,
            WebhookType::Rooms => "rooms"@,
            WebhookType::Messages => "messages"@,
            WebhookType::RoomTypes => "roomTypes"@,
        }
    }

    /// The API's name for the webhook type.
    pub fn api_value(self) -> (r: &'static str)
        ensures
            r@ == self.spec_api_value(),
    {
        match self {
            WebhookType::Reservations => "reservations",
            WebhookType::Blocks => "blocks",
            WebhookType::Rooms => "rooms",
            WebhookType::Messages => "messages",
            WebhookType::RoomTypes => "roomTypes",
        }
    }
}

/// The model of query parameters.
pub open spec fn params_model(p: Seq<(String, String)>) -> Seq<(Seq<char>, Seq<char>)> {
    Seq::new(p.len(), |i: int| (p[i].0@, p[i].1@))
}

fn push_param(params: &mut Vec<(String, String)>, key: &str, value: &str)
    ensures
        params_model(final(params)@) == params_model(old(params)@).push((key@, value@)),
{
    params.push((String::from_str(key), String::from_str(value)));
    assert(params_model(params@) =~= params_model(old(params)@).push((key@, value@)));
}

/// The options of `reservations list`.
pub struct ReservationListArgs {
    pub date_type: ReservationDateType,
    pub from: Option<String>,
    pub to: Option<String>,
    pub start_time: Option<String>,
    pub end_time: Option<String>,
    pub status: String,
    pub room_id: Option<String>,
    pub limit: usize,
}

/// The parameters after the date ones: the status, then the room if given.
pub open spec fn tail_params(status: Seq<char>, room_id: Option<Seq<char>>) -> Seq<(Seq<char>, Seq<char>)> {
    seq![("status"@, status)] + match room_id {
        Some(r) => seq![("roomId"@, r)],
        None => Seq::empty(),
    }
}

/// What `reservations list` asks the API for, or why it refuses.
pub open spec fn spec_reservation_params(
    date_type: ReservationDateType,
    from: Option<Seq<char>>,
    to: Option<Seq<char>>,
    start_time: Option<Seq<char>>,
    end_time: Option<Seq<char>>,
    status: Seq<char>,
    room_id: Option<Seq<char>>,
) -> Result<Seq<(Seq<char>, Seq<char>)>, (Seq<char>, Seq<char>)> {
    let head = seq![("dateType"@, date_type.spec_api_value())];
    match date_type {
        ReservationDateType::Updated => match (start_time, end_time) {
            (None, _) => Err(("input.missing"@, "--start-time is required for updated queries"@)),
            (Some(_), None) => Err(("input.missing"@, "--end-time is required for updated queries"@)),
            (Some(s), Some(e)) => Ok(
                head + seq![("startTime"@, s), ("endTime"@, e)] + tail_params(status, room_id),
            ),
        },
        _ => match (from, to) {
            (None, _) => Err(("input.missing"@, "--from is required for check-in/check-out queries"@)),
            (Some(_), None) => Err(("input.missing"@, "--to is required for check-in/check-out queries"@)),
            (Some(f), Some(t)) => if !date_shaped(f) {
                Err(("date.invalid"@, "--from"@ + " must be formatted as YYYY-MM-DD"@))
            } else if !date_shaped(t) {
                Err(("date.invalid"@, "--to"@ + " must be formatted as YYYY-MM-DD"@))
            } else {
                Ok(head + seq![("startDate"@, f), ("endDate"@, t)] + tail_params(status, room_id))
            },
        },
    }
}

/// The query parameters of `reservations list`: the date type, the dates
/// (check-in/check-out) or the times (updated), the status and the room.
pub fn reservation_list_params(args: &ReservationListArgs) -> (r: Result<Vec<(String, String)>, AppError>)
    ensures
        match spec_reservation_params(
            args.date_type,
            opt_view(args.from),
            opt_view(args.to),
            opt_view(args.start_time),
            opt_view(args.end_time),
            args.status@,
            opt_view(args.room_id),
        ) {
            Ok(p) => r matches Ok(v) && params_model(v@) == p,
            Err((code, message)) => r matches Err(e) && is_error(e, code, message),
        },
{
    let mut params: Vec<(String, String)> = Vec::new();
    push_param(&mut params, "dateType", args.date_type.api_value());
    match args.date_type {
        ReservationDateType::Updated => {
            let s = match &args.start_time {
                Some(s) => s,
                None => {
                    return Err(AppError::new("input.missing", "--start-time is required for updated queries"));
                },
            };
            let e = match &args.end_time {
                Some(e) => e,
                None => {
                    return Err(AppError::new("input.missing", "--end-time is required for updated queries"));
                },
            };
            push_param(&mut params, "startTime", s.as_str());
            push_param(&mut params, "endTime", e.as_str());
        },
        _ => {
            let f = match &args.from {
                Some(f) => f,
                None => {
                    return Err(
                        AppError::new("input.missing", "--from is required for check-in/check-out queries"),
                    );
                },
            };
            let t = match &args.to {
                Some(t) => t,
                None => {
                    return Err(AppError::new("input.missing", "--to is required for check-in/check-out queries"));
                },
            };
            validate_date(f.as_str(), "--from")?;
            validate_date(t.as_str(), "--to")?;
            push_param(&mut params, "startDate", f.as_str());
            push_param(&mut params, "endDate", t.as_str());
        },
    }
    push_param(&mut params, "status", args.status.as_str());
    match &args.room_id {
        Some(room) => push_param(&mut params, "roomId", room.as_str()),
        None => {},
    }
    Ok(params)
}

/// A collection response cut to at most `limit` rows.
pub open spec fn spec_limit_rows(data: Json, limit: usize) -> Json {
    match data.get("data"@) {
        Some(Json::Array(rows)) => if rows.len() > limit {
            set_member(data, "data"@, Json::Array(rows.take(limit as int)))
        } else {
            data
        },
        _ => data,
    }
}

/// Keeps the first `limit` rows of a response's `data` array.
pub fn limit_rows(data: JsonValue, limit: usize) -> (r: JsonValue)
    ensures
        r@ == spec_limit_rows(data@, limit),
{
    let cut = match data.get("data") {
        Some(JsonValue::Array(rows)) => {
            proof {
                lemma_items_model(rows@);
            }
            if rows.len() > limit {
                let mut kept: Vec<JsonValue> = Vec::new();
                let mut i: usize = 0;
                while i < limit
                    invariant
                        i <= limit < rows@.len(),
                        items_model(rows@).len() == rows@.len(),
                        forall|j: int| 0 <= j < rows@.len() ==> #[trigger] items_model(rows@)[j] == rows@[j]@,
                        items_model(kept@) == items_model(rows@).take(i as int),
                    decreases limit - i,
                {
                    let x = clone_json(&rows[i]);
                    proof {
                        crate::json::lemma_items_model_push(kept@, x);
                    }
                    kept.push(x);
                    i = i + 1;
                    assert(items_model(kept@) =~= items_model(rows@).take(i as int));
                }
                Some(kept)
            } else {
                None
            }
        },
        _ => None,
    };
    match cut {
        Some(kept) => match data {
            JsonValue::Object(entries) => {
                let mut entries = entries;
                set_entry_in(&mut entries, "data", JsonValue::Array(kept));
                JsonValue::Object(entries)
            },
            other => other,
        },
        None => data,
    }
}

/// The options of `blocks list`.
pub struct BlockListArgs {
    pub date_type: BlockDateType,
    pub from: String,
    pub to: String,
    pub room_id: Option<String>,
}

/// What `blocks list` asks the API for, or why it refuses.
pub open spec fn spec_block_params(
    date_type: BlockDateType,
    from: Seq<char>,
    to: Seq<char>,
    room_id: Option<Seq<char>>,
) -> Result<Seq<(Seq<char>, Seq<char>)>, (Seq<char>, Seq<char>)> {
    if !date_shaped(from) {
        Err(("date.invalid"@, "--from"@ + " must be formatted as YYYY-MM-DD"@))
    } else if !date_shaped(to) {
        Err(("date.invalid"@, "--to"@ + " must be formatted as YYYY-MM-DD"@))
    } else {
        Ok(
            seq![("dateType"@, date_type.spec_api_value()), ("startDate"@, from), ("endDate"@, to)]
                + match room_id {
                Some(r) => seq![("roomId"@, r)],
                None => Seq::empty(),
            },
        )
    }
}

/// The query of `blocks list` holds its inputs: it is made exactly when both
/// dates are well formed; then it gives the date type and the two dates in
/// that order, and a room filter, last, exactly when a room was given.
pub proof fn law_block_query_holds_its_inputs(
    date_type: BlockDateType,
    from: Seq<char>,
    to: Seq<char>,
    room_id: Option<Seq<char>>,
)
    ensures
        spec_block_params(date_type, from, to, room_id) is Ok <==> date_shaped(from) && date_shaped(to),
        spec_block_params(date_type, from, to, room_id) matches Ok(q) ==> {
            &&& q.len() >= 3
            &&& q[0] == ("dateType"@, date_type.spec_api_value())
            &&& q[1] == ("startDate"@, from)
            &&& q[2] == ("endDate"@, to)
            &&& match room_id {
                Some(r) => q.len() == 4 && q[3] == ("roomId"@, r),
                None => q.len() == 3,
            }
        },
{
}

/// The query of `reservations list` holds its inputs: it starts with the
/// date type, then gives the dates (check-in, check-out) or the times
/// (updated), then the status, and ends with a room filter exactly when a
/// room was given.
pub proof fn law_reservation_query_holds_its_inputs(
    date_type: ReservationDateType,
    from: Option<Seq<char>>,
    to: Option<Seq<char>>,
    start_time: Option<Seq<char>>,
    end_time: Option<Seq<char>>,
    status: Seq<char>,
    room_id: Option<Seq<char>>,
)
    ensures
        spec_reservation_params(date_type, from, to, start_time, end_time, status, room_id) matches Ok(q) ==> {
            &&& q.len() >= 4
            &&& q[0] == ("dateType"@, date_type.spec_api_value())
            &&& (date_type == ReservationDateType::Updated ==> q[1] == ("startTime"@, start_time->0) && q[2] == (
                "endTime"@,
                end_time->0,
            ))
            &&& (date_type != ReservationDateType::Updated ==> q[1] == ("startDate"@, from->0) && q[2] == (
                "endDate"@,
                to->0,
            ))
            &&& q[3] == ("status"@, status)
            &&& match room_id {
                Some(r) => q.len() == 5 && q[4] == ("roomId"@, r),
                None => q.len() == 4,
            }
        },
{
}

/// The query parameters of `blocks list`.
pub fn block_list_params(args: &BlockListArgs) -> (r: Result<Vec<(String, String)>, AppError>)
    ensures
        match spec_block_params(args.date_type, args.from@, args.to@, opt_view(args.room_id)) {
            Ok(p) => r matches Ok(v) && params_model(v@) == p,
            Err((code, message)) => r matches Err(e) && is_error(e, code, message),
        },
{
    validate_date(args.from.as_str(), "--from")?;
    validate_date(args.to.as_str(), "--to")?;
    let mut params: Vec<(String, String)> = Vec::new();
    push_param(&mut params, "dateType", args.date_type.api_value());
    push_param(&mut params, "startDate", args.from.as_str());
    push_param(&mut params, "endDate", args.to.as_str());
    match &args.room_id {
        Some(room) => push_param(&mut params, "roomId", room.as_str()),
        None => {},
    }
    Ok(params)
}

/// The query parameters of `room-types list`: `showPhotos=true` when asked,
/// then the portfolio when given.
pub fn room_types_params(show_photos: bool, portfolio_id: &Option<String>) -> (r: Vec<(String, String)>)
    ensures
        params_model(r@) == (if show_photos {
            seq![("showPhotos"@, "true"@)]
        } else {
            Seq::empty()
        }) + match opt_view(*portfolio_id) {
            Some(p) => seq![("portfolioId"@, p)],
            None => Seq::empty(),
        },
{
    let mut params: Vec<(String, String)> = Vec::new();
    if show_photos {
        push_param(&mut params, "showPhotos", "true");
    }
    match portfolio_id {
        Some(p) => push_param(&mut params, "portfolioId", p.as_str()),
        None => {},
    }
    assert(params_model(params@) =~= (if show_photos {
        seq![("showPhotos"@, "true"@)]
    } else {
        Seq::empty()
    }) + match opt_view(*portfolio_id) {
        Some(p) => seq![("portfolioId"@, p)],
        None => Seq::empty(),
    });
    params
}

/// The parameters of a dated read: `startDate` and `endDate`.
pub fn date_range_params(from: &str, to: &str) -> (r: Vec<(String, String)>)
    ensures
        params_model(r@) == seq![("startDate"@, from@), ("endDate"@, to@)],
{
    let mut params: Vec<(String, String)> = Vec::new();
    push_param(&mut params, "startDate", from);
    push_param(&mut params, "endDate", to);
    assert(params_model(params@) =~= seq![("startDate"@, from@), ("endDate"@, to@)]);
    params
}

/// `/room-types/<encoded id>/inventory`.
pub fn inventory_path(room_type: &str) -> (r: String)
    ensures
        r@ == spec_item_path("room-types"@, room_type@) + "/"@ + "inventory"@,
{
    scoped_path("room-types", room_type, "inventory")
}

/// `/rate-plans/<encoded id>/rates-and-restrictions`.
pub fn rates_path(rate_plan: &str) -> (r: String)
    ensures
        r@ == spec_item_path("rate-plans"@, rate_plan@) + "/"@ + "rates-and-restrictions"@,
{
    scoped_path("rate-plans", rate_plan, "rates-and-restrictions")
}

/// What a command gives back: its name, its data, a line for people,
/// where the data came from, and members to add to the JSON envelope.
#[derive(Debug)]
pub struct CommandOutput {
    pub command: String,
    pub data: JsonValue,
    pub human: String,
    pub source: String,
    pub extra: Vec<(String, JsonValue)>,
}

/// The output of a read: the data with its summary line and its source.
pub fn output(command: &str, data: JsonValue, source: &str) -> (r: CommandOutput)
    ensures
        r.command@ == command@,
        r.data@ == data@,
        r.human@ == spec_summarize(command@, data@),
        r.source@ == source@,
        r.extra@.len() == 0,
{
    let human = summarize(command, &data);
    CommandOutput {
        command: String::from_str(command),
        data,
        human,
        source: String::from_str(source),
        extra: Vec::new(),
    }
}

/// `set_entry` applied for each of the extra members in turn.
pub open spec fn set_all(entries: Seq<(Seq<char>, Json)>, extra: Seq<(Seq<char>, Json)>) -> Seq<
    (Seq<char>, Json),
>
    decreases extra.len(),
{
    if extra.len() == 0 {
        entries
    } else {
        set_entry(set_all(entries, extra.drop_last()), extra.last().0, extra.last().1)
    }
}

/// The JSON envelope of a successful command: `ok`, the command, the
/// environment, the source and the data, then the extra members, each of
/// which replaces a member of the same name.
pub open spec fn spec_envelope(
    command: Seq<char>,
    environment: Seq<char>,
    source: Seq<char>,
    data: Json,
    extra: Seq<(Seq<char>, Json)>,
) -> Json {
    Json::Object(
        set_all(
            seq![
                ("ok"@, Json::Bool(true)),
                ("command"@, Json::Str(command)),
                ("environment"@, Json::Str(environment)),
                ("source"@, Json::Str(source)),
                ("data"@, data),
            ],
            extra,
        ),
    )
}

/// The JSON envelope printed for a successful command.
pub fn envelope(output: CommandOutput, environment: &str) -> (r: JsonValue)
    ensures
        r@ == spec_envelope(
            output.command@,
            environment@,
            output.source@,
            output.data@,
            entries_model(output.extra@),
        ),
{
    let mut entries: Vec<(String, JsonValue)> = Vec::new();
    push_entry(&mut entries, "ok", JsonValue::Bool(true));
    push_entry(&mut entries, "command", json_str(output.command.as_str()));
    push_entry(&mut entries, "environment", json_str(environment));
    push_entry(&mut entries, "source", json_str(output.source.as_str()));
    let ghost extra_model = entries_model(output.extra@);
    let ghost start = seq![
        ("ok"@, Json::Bool(true)),
        ("command"@, Json::Str(output.command@)),
        ("environment"@, Json::Str(environment@)),
        ("source"@, Json::Str(output.source@)),
        ("data"@, output.data@),
    ];
    push_entry(&mut entries, "data", output.data);
    assert(entries_model(entries@) =~= start);
    let extra = output.extra;
    proof {
        crate::json::lemma_entries_model(extra@);
        assert(extra_model.take(0) =~= Seq::<(Seq<char>, Json)>::empty());
    }
    let mut i: usize = 0;
    while i < extra.len()
        invariant
            i <= extra@.len(),
            extra_model == entries_model(extra@),
            extra_model.len() == extra@.len(),
            forall|j: int| 0 <= j < extra@.len() ==> #[trigger] extra_model[j] == (extra@[j].0@, extra@[j].1@),
            entries_model(entries@) == set_all(start, extra_model.take(i as int)),
        decreases extra@.len() - i,
    {
        let v = clone_json(&extra[i].1);
        set_entry_in(&mut entries, extra[i].0.as_str(), v);
        proof {
            assert(extra_model.take(i + 1).drop_last() =~= extra_model.take(i as int));
        }
        i = i + 1;
    }
    assert(extra_model.take(extra@.len() as int) =~= extra_model);
    JsonValue::Object(entries)
}

} // verus!

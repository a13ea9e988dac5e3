//! Request handling: each operation run against the store and its outcome
//! put in the response envelope with the status and message callers see.

use vstd::prelude::*;
use vstd::string::StringExecFns;
use crate::api_response::{ApiResponse, Payload};
use crate::models::{City, CityQuery, Event, EventQuery};
use crate::pagination::{
    PaginationResult, ceil_div, offset_of, page_or_default, per_page_or_default, set_pagination_defaults,
    window,
};
use crate::store::{Store, StoreError, has_session};
use crate::text::{decimal, decimal_text, lower_of};
use crate::urls::{is_local_spec, normalized_url};

verus! {

/// `"<kind> #<id> recorded successfully"`.
pub open spec fn recorded_message(kind: Seq<char>, id: Seq<char>) -> Seq<char> {
    kind + " #"@ + id + " recorded successfully"@
}

fn recorded(kind: &str, id: &str) -> (r: String)
    ensures
        r@ == recorded_message(kind@, id@),
{
    let mut s = kind.to_owned();
    s.append(" #");
    s.append(id);
    s.append(" recorded successfully");
    s
}

fn failure(what: &str, reason: &str) -> (r: String)
    ensures
        r@ == what@ + ": "@ + reason@,
{
    let mut s = what.to_owned();
    s.append(": ");
    s.append(reason);
    s
}

/// The response to a city insert whose store step ended in `res`.
pub open spec fn city_response(res: Result<i32, StoreError>, r: ApiResponse<String>) -> bool {
    match res {
        Ok(id) => r.status == 201 && r.success && (r.payload matches Payload::Data(m) && m@ == recorded_message(
            "City"@,
            decimal(id as nat),
        )),
        Err(_) => r.status == 500 && !r.success && r.payload is Error,
    }
}

/// `r` is a failure with status 500 and message `message`.
pub open spec fn server_error(r: ApiResponse<String>, message: Seq<char>) -> bool {
    r.status == 500 && !r.success && (r.payload matches Payload::Error { message: m } && m@ == message)
}

/// Records a tracked action. A local URL is answered `400` and a refusal
/// by the store `500`, with nothing stored; else the event is stored with
/// its normalised URL and answered `201` with `"Event #<id> recorded
/// successfully"`. A non-local event of a stored session is refused only
/// when its fresh identifier is already taken.
pub fn event_insert(store: &mut Store, query: EventQuery) -> (r: ApiResponse<String>)
    requires
        old(store).wf(),
    ensures
        final(store).wf(),
        r.status == 201 || r.status == 400 || r.status == 500,
        (r.status == 400) == is_local_spec(query.url@),
        r.status == 400 ==> !r.success && (r.payload matches Payload::Error { message } && message@
            == "Local URLs are not allowed in production"@),
        !is_local_spec(query.url@) && !has_session(old(store).collectors(), query.collector_id@) ==> server_error(
            r,
            "Failed to record event: unknown session"@,
        ),
        !is_local_spec(query.url@) && has_session(old(store).collectors(), query.collector_id@) ==> (r.status
            == 201 || server_error(r, "Failed to record event: identifier already taken"@)),
        !is_local_spec(query.url@) && has_session(old(store).collectors(), query.collector_id@) && old(
            store,
        ).events().len() == 0 ==> r.status == 201,
        r.status != 201 ==> *final(store) == *old(store),
        r.status == 201 ==> r.success && Store::appended_event(
            *old(store),
            *final(store),
            query,
            normalized_url(query.url@),
            final(store).events().last().id,
        ) && (r.payload matches Payload::Data(m) && m@ == recorded_message(
            "Event"@,
            final(store).events().last().id@,
        )),
{
    match store.insert_event(query) {
        Ok(id) => ApiResponse::created(recorded("Event", id.as_str())),
        Err(e) => {
            if e.status() == 400 {
                ApiResponse::bad_request("Local URLs are not allowed in production")
            } else {
                proof {
                    reveal_strlit("Failed to record event");
                    reveal_strlit(": ");
                    reveal_strlit("Failed to record event: unknown session");
                    reveal_strlit("Failed to record event: identifier already taken");
                    reveal_strlit("unknown session");
                    reveal_strlit("identifier already taken");
                }
                let text = failure("Failed to record event", e.message());
                proof {
                    assert(e is UnknownSession ==> text@ =~= "Failed to record event: unknown session"@);
                    assert(e is DuplicateId ==> text@ =~= "Failed to record event: identifier already taken"@);
                }
                ApiResponse::internal_error(text.as_str())
            }
        },
    }
}

/// Records the city a client names, as `find_or_create` does with the
/// store: `201` with `"City #<id> recorded successfully"` for the found or
/// created id, `500` (nothing stored) when no id is left for a new city.
pub fn city_insert(store: &mut Store, query: CityQuery, geo: &Option<City>, now: i64) -> (r: ApiResponse<String>)
    requires
        old(store).wf(),
    ensures
        final(store).wf(),
        r.status == 201 || r.status == 500,
        old(store).cities().len() < i32::MAX ==> r.status == 201,
        exists|res: Result<i32, StoreError>|
            Store::find_or_create_post(
                *old(store),
                lower_of(query.name@),
                lower_of(query.country@),
                None,
                None,
                *geo,
                now,
                res,
                *final(store),
            ) && city_response(res, r),
{
    let candidate = City::from_query(query);
    let found = store.find_or_create(candidate, geo, now);
    let ghost res = found;
    let r = match found {
        Ok(id) => {
            let text = decimal_text(id as u32);
            ApiResponse::created(recorded("City", text.as_str()))
        },
        Err(e) => ApiResponse::internal_error(failure("Failed to record city", e.message()).as_str()),
    };
    proof {
        if res is Ok {
            let id = res->Ok_0;
            assert(id >= 1);
            assert(id as u32 as nat == id as nat);
        }
        assert(city_response(res, r));
    }
    r
}

/// Lists a page of cities by id, the page and its size defaulted and
/// clamped as `set_pagination_defaults` does.
pub fn city_get(store: &Store, page: Option<i64>, per_page: Option<i64>) -> (r: ApiResponse<PaginationResult<City>>)
    requires
        store.cities().len() <= i64::MAX,
    ensures
        r.status == 200,
        r.payload matches Payload::Data(res) && {
            let p = page_or_default(page);
            let pp = per_page_or_default(per_page);
            &&& res.items@ == window(store.cities(), offset_of(p as int, pp as int), pp as int)
            &&& res.total_items == store.cities().len()
            &&& res.total_pages == ceil_div(store.cities().len() as int, pp as int)
            &&& res.page == p
            &&& res.per_page == pp
        },
{
    let (page, per_page) = set_pagination_defaults(page, per_page);
    ApiResponse::success(store.list_cities(page, per_page))
}

/// Lists a page of events in log order, the page and its size defaulted
/// and clamped as `set_pagination_defaults` does.
pub fn event_get(store: &Store, page: Option<i64>, per_page: Option<i64>) -> (r: ApiResponse<PaginationResult<Event>>)
    requires
        store.events().len() <= i64::MAX,
    ensures
        r.status == 200,
        r.payload matches Payload::Data(res) && {
            let p = page_or_default(page);
            let pp = per_page_or_default(per_page);
            &&& res.items@ == window(store.events(), offset_of(p as int, pp as int), pp as int)
            &&& res.total_items == store.events().len()
            &&& res.total_pages == ceil_div(store.events().len() as int, pp as int)
            &&& res.page == p
            &&& res.per_page == pp
        },
{
    let (page, per_page) = set_pagination_defaults(page, per_page);
    ApiResponse::success(store.list_events(page, per_page))
}

} // verus!

//! The plain results server: it knows no competitions and keeps no activity.

use vstd::prelude::*;
use crate::roc_server::http::{
    last_id_from_request, query_param, text_response, xml_response, Answer, Endpoint, Header, Kind,
    Method,
};
use crate::roc_server::mip::render_mip_xml;
use crate::roc_server::roc::render_roc_text;
use crate::roc_server::store::{Store, StoredPunch};
use crate::roc_server::{http, mip, roc, store};
use crate::{decimal, text};

verus! {

/// Reads what a request asks for: punches are handed over or polled for, and
/// nothing else is known.
pub fn route(method: Method, url: &str) -> (r: Endpoint)
    ensures
        r == (match http::asked(method, url@) {
            Endpoint::Punches => Endpoint::Punches,
            Endpoint::Mip => Endpoint::Mip,
            Endpoint::Roc => Endpoint::Roc,
            _ => Endpoint::Unknown,
        }),
{
    match http::route(method, url) {
        Endpoint::Punches => Endpoint::Punches,
        Endpoint::Mip => Endpoint::Mip,
        Endpoint::Roc => Endpoint::Roc,
        _ => Endpoint::Unknown,
    }
}

/// A punch that a daemon hands over.
#[derive(Debug)]
pub struct PunchPush {
    pub card_id: u32,
    pub station: u8,
    pub time_s: u32,
    pub source: String,
}

/// Takes a punch that a daemon hands over; `None` stands for a body that is no
/// punch.
pub fn handle_punches(push: Option<PunchPush>, store: &mut Store) -> (r: Answer)
    requires
        old(store).wf(),
    ensures
        final(store).wf(),
        push is None ==> r@ == http::words(400, "invalid json"@) && *final(store) == *old(store),
        push is Some && old(store).next_id == i64::MAX ==> r@ == http::words(
            500,
            "internal error"@,
        ) && *final(store) == *old(store),
        push matches Some(p) ==> old(store).next_id < i64::MAX ==> r@ == http::words(200, "ok"@)
            && final(store).next_id == old(store).next_id + 1
            && final(store).table() == old(store).table().push(
            (store::RowView {
                punch: StoredPunch {
                    id: old(store).next_id,
                    card_id: p.card_id,
                    station: p.station,
                    time_s: p.time_s,
                },
                source: p.source@,
                competition_id: ""@,
            }),
        ),
{
    match push {
        None => text_response(400, "invalid json"),
        Some(p) => match store.record(p.card_id, p.station, p.time_s, p.source.as_str(), "") {
            Some(_) => text_response(200, "ok"),
            None => text_response(500, "internal error"),
        },
    }
}

/// Answers a poll in XML: the punches since the last one that the client got.
pub fn handle_mip(headers: &Vec<Header>, url: &str, store: &Store) -> (r: Answer)
    requires
        mip::times_fit(store::newer(store.table(), http::last_id(headers@, url@), None)),
    ensures
        ({
            let last = http::last_id(headers@, url@);
            let ps = store::newer(store.table(), last, None);
            r@ == (http::AnswerView {
                status: 200,
                kind: Kind::Xml,
                body: mip::mip_xml(http::cursor(ps, last), ps),
            })
        }),
{
    let last: i64 = last_id_from_request(headers, url);
    let none: Option<&str> = None;
    let punches = store.select(last, none);
    let n: usize = punches.len();
    let new_last: i64 = if n > 0 {
        punches[n - 1].id
    } else {
        last
    };
    xml_response(render_mip_xml(new_last, punches.as_slice()))
}

/// Answers a poll in lines: the punches since the last one that the client got.
pub fn handle_roc(url: &str, store: &Store, date: &str) -> (r: Answer)
    ensures
        r@ == http::words(
            200,
            roc::roc_text(store::newer(store.table(), http::roc_last_id(url@), None), date@),
        ),
{
    let last: i64 = match query_param(url, "lastId") {
        Some(v) => {
            let all = text::chars(v.as_str());
            match decimal::parse_i64(all.as_slice()) {
                Some(n) => n,
                None => 0,
            }
        },
        None => 0,
    };
    let none: Option<&str> = None;
    let punches = store.select(last, none);
    let body = render_roc_text(punches.as_slice(), date);
    Answer { status: 200, kind: Kind::Plain, body }
}

} // verus!

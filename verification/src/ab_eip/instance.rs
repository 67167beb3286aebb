//! Listing the tags of a controller: Get Instance Attribute List on the
//! symbol class, page by page, as a state machine whose requests and
//! replies are carried by the caller.

use crate::ab_eip::service::{CLASS_SYMBOL, REPLY_MASK, SERVICE_GET_INSTANCE_ATTRIBUTE_LIST};
use crate::ab_eip::symbol::{spec_symbol_record, SymbolInstance};
use crate::buf::{bytes_len, bytes_view};
use crate::cip::epath::{EPath, Segment};
use crate::cip::mr::{MessageRouterReply, MessageRouterRequest};
use crate::error::Error;
use bytes::Bytes;
use crate::cip::mr::HasMore;
use vstd::prelude::*;

verus! {

/// Lists the symbol instances (tags) of a controller. Only instances that
/// were created are returned; tags whose External Access is None are left
/// out by the controller.
#[derive(Debug, Clone, Copy)]
pub struct GetInstanceAttributeList {
    /// instance id to start from
    pub start_instance: u16,
    /// keep requesting while replies report more data
    pub all: bool,
}

/// Where a listing stands.
#[derive(Debug)]
pub enum ListState {
    /// a request for the instances from this id on is to be sent
    Request(u16),
    /// records of a reply are still to be read; `start_instance` is the id
    /// of the last instance read
    HasData { start_instance: u16, has_more: bool, data: Bytes },
    /// the listing is over
    End,
}

/// What a step of a listing asks of the caller or hands to it.
#[derive(Debug)]
pub enum ListStep {
    /// send the request for the instances from this id on
    Send(u16),
    /// an instance that was read
    Item(SymbolInstance),
    /// the listing failed
    Failed(Error),
    /// no more instances
    Done,
}

/// The request path: symbol class, instance `start_instance`.
pub open spec fn is_symbol_path(p: EPath, start_instance: u16) -> bool {
    p@ == seq![Segment::Class(CLASS_SYMBOL), Segment::Instance(start_instance)]
}

/// Get Instance Attribute List request for the instances from
/// `start_instance` on: two attributes, 1 (symbol name) and 2 (symbol
/// type).
pub fn get_attribute_list(start_instance: u16) -> (mr: MessageRouterRequest<EPath, (u16, u16, u16)>)
    ensures
        mr.service_code == SERVICE_GET_INSTANCE_ATTRIBUTE_LIST,
        is_symbol_path(mr.path, start_instance),
        mr.data == (2u16, 1u16, 2u16),
{
    let path = EPath::new().with_class(CLASS_SYMBOL).with_instance(start_instance);
    assert(path@ =~= seq![Segment::Class(CLASS_SYMBOL), Segment::Instance(start_instance)]);
    MessageRouterRequest::new(SERVICE_GET_INSTANCE_ATTRIBUTE_LIST, path, (2u16, 1u16, 2u16))
}

/// Reads a Get Instance Attribute List reply: an error status other than
/// "more data" (0x06) fails, so does another service; else whether more
/// data remains, and the records.
pub fn get_attribute_list_reply(resp: &MessageRouterReply<Bytes>) -> (r: Result<(bool, Bytes), Error>)
    ensures
        !(resp.status.general == 0 || resp.status.general == 0x06) ==> r == Err::<(bool, Bytes), Error>(
            Error::Cip { general: resp.status.general, extended: resp.status.extended },
        ),
        (resp.status.general == 0 || resp.status.general == 0x06) && resp.reply_service
            != SERVICE_GET_INSTANCE_ATTRIBUTE_LIST + REPLY_MASK ==> r == Err::<(bool, Bytes), Error>(
            Error::UnexpectedService(resp.reply_service),
        ),
        (resp.status.general == 0 || resp.status.general == 0x06) && resp.reply_service
            == SERVICE_GET_INSTANCE_ATTRIBUTE_LIST + REPLY_MASK ==> (r matches Ok((more, data))
            && more == (resp.status.general == 0x06) && bytes_view(data) == bytes_view(resp.data)),
{
    resp.ensure_ok_or_more()?;
    resp.expect_service(SERVICE_GET_INSTANCE_ATTRIBUTE_LIST + REPLY_MASK)?;
    Ok((resp.status.has_more(), resp.data.clone()))
}

impl GetInstanceAttributeList {
    /// From instance 0, all pages.
    pub fn new() -> (r: Self)
        ensures
            r.start_instance == 0,
            r.all,
    {
        GetInstanceAttributeList { start_instance: 0, all: true }
    }

    /// Start from `instance_id`.
    pub fn start_instance(self, instance_id: u16) -> (r: Self)
        ensures
            r.start_instance == instance_id,
            r.all == self.all,
    {
        GetInstanceAttributeList { start_instance: instance_id, ..self }
    }

    /// Keep requesting while replies report more data (default: true).
    pub fn retrieve_all(self, all: bool) -> (r: Self)
        ensures
            r.start_instance == self.start_instance,
            r.all == all,
    {
        GetInstanceAttributeList { all, ..self }
    }

    /// The state a listing starts in.
    pub fn start(&self) -> (s: ListState)
        ensures
            s == ListState::Request(self.start_instance),
    {
        ListState::Request(self.start_instance)
    }

    /// The state after the reply to the request for the instances from
    /// `start_instance` on: its records are to be read, or the listing
    /// fails.
    pub fn received(start_instance: u16, resp: &MessageRouterReply<Bytes>) -> (r: Result<
        ListState,
        Error,
    >)
        ensures
            !(resp.status.general == 0 || resp.status.general == 0x06) ==> r == Err::<
                ListState,
                Error,
            >(Error::Cip { general: resp.status.general, extended: resp.status.extended }),
            (resp.status.general == 0 || resp.status.general == 0x06) && resp.reply_service
                != SERVICE_GET_INSTANCE_ATTRIBUTE_LIST + REPLY_MASK ==> r == Err::<ListState, Error>(
                Error::UnexpectedService(resp.reply_service),
            ),
            (resp.status.general == 0 || resp.status.general == 0x06) && resp.reply_service
                == SERVICE_GET_INSTANCE_ATTRIBUTE_LIST + REPLY_MASK ==> (r matches Ok(
                ListState::HasData { start_instance: s, has_more, data },
            ) && s == start_instance && has_more == (resp.status.general == 0x06) && bytes_view(
                data,
            ) == bytes_view(resp.data)),
    {
        let (has_more, data) = get_attribute_list_reply(resp)?;
        Ok(ListState::HasData { start_instance, has_more, data })
    }

    /// One step of a listing: a pending request is to be sent; records are
    /// read one at a time, each one's id becoming the instance to go on
    /// from; when the records run out, the next page is requested (from the
    /// instance after the last one read) if the reply reported more data and
    /// all pages are wanted, else the listing is done. A record that does not
    /// decode ends the listing with its error. Past instance 0xFFFF there is
    /// no page to request.
    pub fn step(&self, state: ListState) -> (r: (ListState, ListStep))
        ensures
            state matches ListState::Request(s) ==> r.0 == ListState::Request(s) && r.1
                == ListStep::Send(s),
            state is End ==> r.0 is End && r.1 is Done,
            state matches ListState::HasData { start_instance, has_more, data } ==> if bytes_view(
                data,
            ).len() > 0 {
                match spec_symbol_record(bytes_view(data)) {
                    Ok((id, name, ty, rest)) => (r.0 matches ListState::HasData {
                        start_instance: s2,
                        has_more: m2,
                        data: d2,
                    } && s2 == id && m2 == has_more && bytes_view(d2) == rest) && (r.1 matches ListStep::Item(
                        inst,
                    ) && inst.id == id && crate::cip::epath::string_bytes(inst.name) == name
                        && inst.symbol_type.0 == ty),
                    Err(e) => r.0 is End && r.1 == ListStep::Failed(e),
                }
            } else if has_more && self.all && start_instance < u16::MAX {
                r.0 == ListState::Request((start_instance + 1) as u16) && r.1 == ListStep::Send(
                    (start_instance + 1) as u16,
                )
            } else {
                r.0 is End && r.1 is Done
            },
    {
        match state {
            ListState::Request(s) => (ListState::Request(s), ListStep::Send(s)),
            ListState::End => (ListState::End, ListStep::Done),
            ListState::HasData { start_instance, has_more, mut data } => {
                if bytes_len(&data) > 0 {
                    match SymbolInstance::decode(&mut data) {
                        Ok(item) => {
                            let id = item.id;
                            (
                                ListState::HasData { start_instance: id, has_more, data },
                                ListStep::Item(item),
                            )
                        },
                        Err(e) => (ListState::End, ListStep::Failed(e)),
                    }
                } else if has_more && self.all && start_instance < u16::MAX {
                    let next = start_instance + 1;
                    (ListState::Request(next), ListStep::Send(next))
                } else {
                    (ListState::End, ListStep::Done)
                }
            },
        }
    }
}

} // verus!

//! Requests to sharded entities, and the form in which they cross nodes.

use vstd::prelude::*;
use vstd::utf8::encode_utf8;
use std::sync::Arc;
use tokio::sync::oneshot::Sender;
use crate::actor::refs::ActorRefErr;
use crate::actor::table::ActorId;
use crate::remote::actor::message::{
    fresh_request_id, is_random_uuid, parse_request_id, request_id_text, uuid_parse, uuid_text, RemoteResponse,
    RequestId,
};
use crate::remote::cluster::node::NodeId;
use crate::remote::net::proto::{
    bytes_field, bytes_in, bytes_of, lemma_bytes_slot, lemma_join, lemma_nested_slot,
    lemma_number_slot, lemma_text_slot, nested_field, nested_in, nested_of, number_field,
    number_in, number_of, text_field, text_in, text_of, write_bytes, write_nested, write_number,
    write_text, MessageUnwrapErr, MessageWrapErr,
};
use crate::remote::net::wire::{
    encode_fields, lemma_encode_fields_concat, lemma_message_fields_round_trip, message_fields, read_message_fields,
    Field,
};

verus! {

/// A message for a sharded entity.
#[derive(Debug)]
pub struct EntityRequest {
    pub actor_id: ActorId,
    pub message_type: String,
    pub message: Vec<u8>,
    /// How to create the entity, should it not exist yet.
    pub recipe: Option<Arc<Vec<u8>>>,
    /// Where the answer goes, if one is wanted.
    pub result_channel: Option<Sender<Result<Vec<u8>, ActorRefErr>>>,
}

/// An [`EntityRequest`] on its way to the node that hosts the shard.
#[derive(Debug, Clone, PartialEq, Eq)]
pub struct RemoteEntityRequest {
    pub request_id: RequestId,
    pub actor_id: ActorId,
    pub message_type: String,
    pub message: Vec<u8>,
    pub recipe: Option<Vec<u8>>,
    pub origin_node: NodeId,
}

/// A [`RemoteEntityRequest`] as plain values.
pub struct RemoteEntityRequestView {
    pub request_id: RequestId,
    pub actor_id: Seq<char>,
    pub message_type: Seq<char>,
    pub message: Seq<u8>,
    pub recipe: Option<Seq<u8>>,
    pub origin_node: NodeId,
}

/// A message as it is handed on: as it is within a node, as bytes between
/// nodes.
#[derive(Debug, PartialEq, Eq)]
pub enum Envelope<M> {
    Local(M),
    Remote(Vec<u8>),
}

impl EntityRequest {
    /// The request as it would cross to another node. It cannot: it holds
    /// the channel for its answer. What crosses is a
    /// [`RemoteEntityRequest`] made from it.
    pub fn as_remote_envelope(&self) -> (r: Result<Envelope<EntityRequest>, MessageWrapErr>)
        ensures
            r == Err::<Envelope<EntityRequest>, MessageWrapErr>(MessageWrapErr::NotTransmittable),
    {
        Err(MessageWrapErr::NotTransmittable)
    }

    /// The request that arrived as `_buffer`. None does: requests arrive as
    /// [`RemoteEntityRequest`]s.
    pub fn from_remote_envelope(_buffer: Vec<u8>) -> (r: Result<EntityRequest, MessageUnwrapErr>)
        ensures
            r == Err::<EntityRequest, MessageUnwrapErr>(MessageUnwrapErr::NotTransmittable),
    {
        Err(MessageUnwrapErr::NotTransmittable)
    }
}

/// The answer owed to the caller of a request that could not be served.
#[derive(Debug)]
pub struct FailedRequest {
    /// The channel the caller gave for the answer.
    pub result_channel: Sender<Result<Vec<u8>, ActorRefErr>>,
    /// What to put into the channel.
    pub answer: Result<Vec<u8>, ActorRefErr>,
}

impl EntityRequest {
    /// What the caller is told when the request cannot be served: the
    /// shard was lost while the request waited, or the hand-over to the
    /// shard failed. The channel for the answer, where the caller gave one,
    /// is owed `ActorUnavailable`; a caller that gave none is told nothing.
    pub fn fail(self) -> (failed: Option<FailedRequest>)
        ensures
            failed == (match self.result_channel {
                Some(result_channel) => Some(
                    FailedRequest {
                        result_channel,
                        answer: Err(ActorRefErr::ActorUnavailable),
                    },
                ),
                None => None::<FailedRequest>,
            }),
    {
        match self.result_channel {
            Some(result_channel) => Some(
                FailedRequest { result_channel, answer: Err(ActorRefErr::ActorUnavailable) },
            ),
            None => None,
        }
    }
}

impl From<RemoteEntityRequest> for EntityRequest {
    /// The request as the hosting node handles it. The answer travels back
    /// under the request identifier, so there is no channel for it here.
    fn from(req: RemoteEntityRequest) -> (request: Self) {
        EntityRequest {
            actor_id: req.actor_id,
            message_type: req.message_type,
            message: req.message,
            recipe: match req.recipe {
                Some(recipe) => Some(Arc::new(recipe)),
                None => None,
            },
            result_channel: None,
        }
    }
}

impl vstd::std_specs::convert::FromSpecImpl<RemoteEntityRequest> for EntityRequest {
    open spec fn obeys_from_spec() -> bool {
        true
    }

    open spec fn from_spec(req: RemoteEntityRequest) -> Self {
        EntityRequest {
            actor_id: req.actor_id,
            message_type: req.message_type,
            message: req.message,
            recipe: match req.recipe {
                Some(recipe) => Some(Arc::new(recipe)),
                None => None,
            },
            result_channel: None,
        }
    }
}

/// The recipe on the wire, as the bytes of the nested message.
pub open spec fn recipe_encoding(recipe: Seq<u8>) -> Seq<u8> {
    encode_fields(bytes_field(1, recipe))
}

/// The recipe that the bytes of a nested message hold.
pub open spec fn recipe_decoding(bytes: Seq<u8>) -> Option<Seq<u8>> {
    match message_fields(bytes) {
        Some(fields) => bytes_of(fields, 1),
        None => None,
    }
}

/// A recipe that is written is read back as it was.
pub proof fn lemma_recipe_round_trip(recipe: Seq<u8>)
    requires
        recipe.len() <= u64::MAX,
    ensures
        recipe_decoding(recipe_encoding(recipe)) == Some(recipe),
{
    lemma_bytes_slot(1, recipe);
    lemma_message_fields_round_trip(bytes_field(1, recipe));
    if recipe.len() == 0 {
        assert(recipe =~= Seq::empty());
    }
}

fn write_recipe(recipe: &Vec<u8>) -> (bytes: Vec<u8>)
    ensures
        bytes@ == recipe_encoding(recipe@),
{
    let mut bytes: Vec<u8> = Vec::new();
    write_bytes(&mut bytes, 1, recipe.as_slice());
    assert(bytes@ =~= recipe_encoding(recipe@));
    bytes
}

fn read_recipe(bytes: &Vec<u8>) -> (recipe: Option<Vec<u8>>)
    ensures
        match recipe {
            Some(r) => recipe_decoding(bytes@) == Some(r@),
            None => recipe_decoding(bytes@) is None,
        },
{
    match read_message_fields(bytes.as_slice()) {
        Some(fields) => bytes_in(&fields, 1),
        None => None,
    }
}

impl RemoteEntityRequest {
    pub open spec fn view(&self) -> RemoteEntityRequestView {
        RemoteEntityRequestView {
            request_id: self.request_id,
            actor_id: self.actor_id@,
            message_type: self.message_type@,
            message: self.message@,
            recipe: match self.recipe {
                Some(r) => Some(r@),
                None => None,
            },
            origin_node: self.origin_node,
        }
    }

    /// The recipe as the nested message it is written as.
    pub open spec fn nested_recipe(m: RemoteEntityRequestView) -> Option<Seq<u8>> {
        match m.recipe {
            Some(r) => Some(recipe_encoding(r)),
            None => None,
        }
    }

    /// The fields of the request, in the order in which they are written.
    pub open spec fn fields(m: RemoteEntityRequestView) -> Seq<Field> {
        text_field(1, uuid_text(m.request_id)) + text_field(2, m.actor_id) + text_field(
            3,
            m.message_type,
        ) + bytes_field(4, m.message) + nested_field(5, Self::nested_recipe(m)) + number_field(
            6,
            m.origin_node,
        )
    }

    /// The request on the wire.
    pub open spec fn encoding(m: RemoteEntityRequestView) -> Seq<u8> {
        encode_fields(Self::fields(m))
    }

    /// The request made of the parts read from the wire; nothing where the
    /// request identifier was no UUID or the recipe is no message.
    pub open spec fn assembled(
        request_id: Option<RequestId>,
        actor_id: Seq<char>,
        message_type: Seq<char>,
        message: Seq<u8>,
        nested: Option<Seq<u8>>,
        origin_node: NodeId,
    ) -> Option<RemoteEntityRequestView> {
        match request_id {
            None => None,
            Some(request_id) => match nested {
                None => Some(
                    RemoteEntityRequestView {
                        request_id,
                        actor_id,
                        message_type,
                        message,
                        recipe: None,
                        origin_node,
                    },
                ),
                Some(bytes) => match recipe_decoding(bytes) {
                    None => None,
                    Some(recipe) => Some(
                        RemoteEntityRequestView {
                            request_id,
                            actor_id,
                            message_type,
                            message,
                            recipe: Some(recipe),
                            origin_node,
                        },
                    ),
                },
            },
        }
    }

    /// The request that `fields` make up; nothing where a field has the
    /// wrong kind of value, a text is not UTF-8, the request identifier is
    /// no UUID, or the recipe is no message.
    pub open spec fn from_fields(fields: Seq<Field>) -> Option<RemoteEntityRequestView> {
        match (
            text_of(fields, 1),
            text_of(fields, 2),
            text_of(fields, 3),
            bytes_of(fields, 4),
            nested_of(fields, 5),
            number_of(fields, 6),
        ) {
            (
                Some(id_text),
                Some(actor_id),
                Some(message_type),
                Some(message),
                Some(nested),
                Some(origin_node),
            ) => Self::assembled(
                uuid_parse(id_text),
                actor_id,
                message_type,
                message,
                nested,
                origin_node,
            ),
            _ => None,
        }
    }

    /// The request that `bytes` encode, if they encode one.
    pub open spec fn decoding(bytes: Seq<u8>) -> Option<RemoteEntityRequestView> {
        match message_fields(bytes) {
            Some(fields) => Self::from_fields(fields),
            None => None,
        }
    }

    /// Every part of the request is short enough for its length to be
    /// written.
    pub open spec fn fits(m: RemoteEntityRequestView) -> bool {
        &&& encode_utf8(uuid_text(m.request_id)).len() <= u64::MAX
        &&& encode_utf8(m.actor_id).len() <= u64::MAX
        &&& encode_utf8(m.message_type).len() <= u64::MAX
        &&& m.message.len() <= u64::MAX
        &&& match m.recipe {
            Some(r) => r.len() <= u64::MAX && recipe_encoding(r).len() <= u64::MAX,
            None => true,
        }
    }

    /// What is written is read back as it was, for a request whose
    /// identifier reads back from its text form.
    pub proof fn lemma_round_trip(m: RemoteEntityRequestView)
        requires
            Self::fits(m),
            uuid_parse(uuid_text(m.request_id)) == Some(m.request_id),
        ensures
            Self::decoding(Self::encoding(m)) == Some(m),
    {
        let f1 = text_field(1, uuid_text(m.request_id));
        let f2 = text_field(2, m.actor_id);
        let f3 = text_field(3, m.message_type);
        let f4 = bytes_field(4, m.message);
        let f5 = nested_field(5, Self::nested_recipe(m));
        let f6 = number_field(6, m.origin_node);
        lemma_text_slot(1, uuid_text(m.request_id));
        lemma_text_slot(2, m.actor_id);
        lemma_text_slot(3, m.message_type);
        lemma_bytes_slot(4, m.message);
        lemma_nested_slot(5, Self::nested_recipe(m));
        lemma_number_slot(6, m.origin_node);
        lemma_join(f1, f2);
        lemma_join(f1 + f2, f3);
        lemma_join(f1 + f2 + f3, f4);
        lemma_join(f1 + f2 + f3 + f4, f5);
        lemma_join(f1 + f2 + f3 + f4 + f5, f6);
        lemma_message_fields_round_trip(Self::fields(m));
        match m.recipe {
            Some(r) => {
                lemma_recipe_round_trip(r);
            },
            None => {},
        }
        if m.message.len() == 0 {
            assert(m.message =~= Seq::empty());
        }
    }

    /// Writes the request.
    pub fn write_to_bytes(&self) -> (bytes: Vec<u8>)
        ensures
            bytes@ == Self::encoding(self@),
            Self::decoding(bytes@) == Some(self@),
    {
        let id_text = request_id_text(self.request_id);
        let nested = match &self.recipe {
            Some(recipe) => Some(write_recipe(recipe)),
            None => None,
        };
        let mut bytes: Vec<u8> = Vec::new();
        write_text(&mut bytes, 1, id_text.as_str());
        write_text(&mut bytes, 2, self.actor_id.as_str());
        write_text(&mut bytes, 3, self.message_type.as_str());
        write_bytes(&mut bytes, 4, self.message.as_slice());
        write_nested(&mut bytes, 5, &nested);
        write_number(&mut bytes, 6, self.origin_node);
        proof {
            let m = self@;
            let f1 = text_field(1, uuid_text(m.request_id));
            let f2 = text_field(2, m.actor_id);
            let f3 = text_field(3, m.message_type);
            let f4 = bytes_field(4, m.message);
            let f5 = nested_field(5, Self::nested_recipe(m));
            let f6 = number_field(6, m.origin_node);
            lemma_encode_fields_concat(f1, f2);
            lemma_encode_fields_concat(f1 + f2, f3);
            lemma_encode_fields_concat(f1 + f2 + f3, f4);
            lemma_encode_fields_concat(f1 + f2 + f3 + f4, f5);
            lemma_encode_fields_concat(f1 + f2 + f3 + f4 + f5, f6);
            assert(bytes@ =~= Self::encoding(m));
            assert(self.message@.len() == self.message.len());
            if self.recipe.is_some() {
                assert(self.recipe.unwrap()@.len() == self.recipe.unwrap().len());
                assert(nested.unwrap()@.len() == nested.unwrap().len());
            }
            Self::lemma_round_trip(m);
        }
        bytes
    }

    /// Reads a request. This succeeds exactly when `bytes` encode one.
    pub fn parse_from_bytes(bytes: &[u8]) -> (r: Result<RemoteEntityRequest, MessageUnwrapErr>)
        ensures
            match r {
                Ok(m) => Self::decoding(bytes@) == Some(m@),
                Err(e) => Self::decoding(bytes@) is None && e
                    == MessageUnwrapErr::DeserializationErr,
            },
    {
        let fields = match read_message_fields(bytes) {
            Some(fields) => fields,
            None => {
                return Err(MessageUnwrapErr::DeserializationErr);
            },
        };
        let id_text = match text_in(&fields, 1) {
            Some(t) => t,
            None => {
                return Err(MessageUnwrapErr::DeserializationErr);
            },
        };
        let actor_id = match text_in(&fields, 2) {
            Some(t) => t,
            None => {
                return Err(MessageUnwrapErr::DeserializationErr);
            },
        };
        let message_type = match text_in(&fields, 3) {
            Some(t) => t,
            None => {
                return Err(MessageUnwrapErr::DeserializationErr);
            },
        };
        let message = match bytes_in(&fields, 4) {
            Some(b) => b,
            None => {
                return Err(MessageUnwrapErr::DeserializationErr);
            },
        };
        let nested = match nested_in(&fields, 5) {
            Some(n) => n,
            None => {
                return Err(MessageUnwrapErr::DeserializationErr);
            },
        };
        let origin_node = match number_in(&fields, 6) {
            Some(n) => n,
            None => {
                return Err(MessageUnwrapErr::DeserializationErr);
            },
        };
        Self::assemble(
            parse_request_id(id_text.as_str()),
            actor_id,
            message_type,
            message,
            nested,
            origin_node,
        )
    }

    /// Puts a request together from the parts read from the wire, the
    /// request identifier as it was parsed and the recipe still as the bytes
    /// of its nested message. `DeserializationErr` where the identifier did
    /// not parse or the recipe is no message.
    pub fn assemble(
        request_id: Option<RequestId>,
        actor_id: ActorId,
        message_type: String,
        message: Vec<u8>,
        nested: Option<Vec<u8>>,
        origin_node: NodeId,
    ) -> (r: Result<RemoteEntityRequest, MessageUnwrapErr>)
        ensures
            ({
                let spec_nested = match nested {
                    Some(bytes) => Some(bytes@),
                    None => None,
                };
                let assembled = Self::assembled(
                    request_id,
                    actor_id@,
                    message_type@,
                    message@,
                    spec_nested,
                    origin_node,
                );
                match r {
                    Ok(m) => assembled == Some(m@),
                    Err(e) => assembled is None && e == MessageUnwrapErr::DeserializationErr,
                }
            }),
    {
        let request_id = match request_id {
            Some(id) => id,
            None => {
                return Err(MessageUnwrapErr::DeserializationErr);
            },
        };
        let recipe = match nested {
            None => None,
            Some(encoded) => match read_recipe(&encoded) {
                Some(recipe) => Some(recipe),
                None => {
                    return Err(MessageUnwrapErr::DeserializationErr);
                },
            },
        };
        Ok(RemoteEntityRequest { request_id, actor_id, message_type, message, recipe, origin_node })
    }

    /// The request as it crosses to another node: its bytes.
    pub fn as_remote_envelope(&self) -> (r: Result<Envelope<RemoteEntityRequest>, MessageWrapErr>)
        ensures
            r is Ok,
            r->Ok_0 is Remote,
            r->Ok_0->Remote_0@ == Self::encoding(self@),
            Self::decoding(r->Ok_0->Remote_0@) == Some(self@),
    {
        Ok(Envelope::Remote(self.write_to_bytes()))
    }

    /// The request that arrived as `buffer`; `DeserializationErr` where
    /// `buffer` holds none.
    pub fn from_remote_envelope(buffer: Vec<u8>) -> (r: Result<
        RemoteEntityRequest,
        MessageUnwrapErr,
    >)
        ensures
            match r {
                Ok(m) => Self::decoding(buffer@) == Some(m@),
                Err(e) => Self::decoding(buffer@) is None && e
                    == MessageUnwrapErr::DeserializationErr,
            },
    {
        Self::parse_from_bytes(buffer.as_slice())
    }

    /// The result of the request as read from `_buffer`: there is none to
    /// read, the answer travels on its own.
    pub fn read_remote_result(_buffer: Vec<u8>) -> (r: Result<(), MessageUnwrapErr>)
        ensures
            r is Ok,
    {
        Ok(())
    }

    /// The result of the request on the wire: no bytes.
    pub fn write_remote_result(_res: ()) -> (r: Result<Vec<u8>, MessageWrapErr>)
        ensures
            r is Ok,
            r->Ok_0@ == Seq::<u8>::empty(),
    {
        Ok(Vec::new())
    }
}

/// A request made ready to cross to the node that hosts its shard.
#[derive(Debug)]
pub struct OutboundEntityRequest {
    /// What to send to the shard.
    pub request: RemoteEntityRequest,
    /// Where to send the answer once it arrives under the request's
    /// identifier.
    pub result_channel: Option<Sender<Result<Vec<u8>, ActorRefErr>>>,
}

/// What crosses to the hosting node for `request`, sent from
/// `origin_node` under `request_id`: the parts of the request, unchanged.
pub open spec fn crossing(
    request: EntityRequest,
    request_id: RequestId,
    origin_node: NodeId,
) -> RemoteEntityRequestView {
    RemoteEntityRequestView {
        request_id,
        actor_id: request.actor_id@,
        message_type: request.message_type@,
        message: request.message@,
        recipe: match request.recipe {
            Some(recipe) => Some(recipe@),
            None => None,
        },
        origin_node,
    }
}

/// Makes `request` ready to cross from `origin_node` under the identifier
/// `request_id`: the parts of the request go over unchanged, the recipe as
/// a copy of its own, and the channel for the answer stays behind.
pub fn outbound_entity_request(
    request: EntityRequest,
    request_id: RequestId,
    origin_node: NodeId,
) -> (outbound: OutboundEntityRequest)
    ensures
        outbound.request@ == crossing(request, request_id, origin_node),
        outbound.result_channel == request.result_channel,
{
    let recipe = match &request.recipe {
        Some(recipe) => {
            let shared: &Vec<u8> = &**recipe;
            Some(shared.clone())
        },
        None => None,
    };
    OutboundEntityRequest {
        request: RemoteEntityRequest {
            origin_node,
            request_id,
            actor_id: request.actor_id,
            message_type: request.message_type,
            message: request.message,
            recipe,
        },
        result_channel: request.result_channel,
    }
}

/// Makes `request` ready to cross from `origin_node` under a fresh
/// identifier.
pub fn remote_entity_request(request: EntityRequest, origin_node: NodeId) -> (outbound:
    OutboundEntityRequest)
    ensures
        outbound.request@ == crossing(request, outbound.request.request_id, origin_node),
        outbound.result_channel == request.result_channel,
        is_random_uuid(outbound.request.request_id),
{
    let request_id = fresh_request_id();
    outbound_entity_request(request, request_id, origin_node)
}

/// How a request to a remote shard ended.
#[derive(Debug, PartialEq, Eq)]
pub struct RemoteEntityReply {
    /// What to put into the channel the caller gave, if it gave one.
    pub reply: Option<Result<Vec<u8>, ActorRefErr>>,
    /// Whether an answer arrived at all.
    pub outcome: Result<(), ActorRefErr>,
}

/// What follows from the answer to a remote request, `None` standing for
/// an answer that never came. An answer that came goes to the caller, a
/// failure as `ActorUnavailable`. Without an answer the caller is told
/// `ActorUnavailable` too, and the request itself ends in that error.
pub open spec fn remote_reply(response: Option<RemoteResponse>) -> RemoteEntityReply {
    match response {
        Some(RemoteResponse::Success(bytes)) => RemoteEntityReply {
            reply: Some(Ok(bytes)),
            outcome: Ok(()),
        },
        Some(RemoteResponse::Failure(_)) => RemoteEntityReply {
            reply: Some(Err(ActorRefErr::ActorUnavailable)),
            outcome: Ok(()),
        },
        None => RemoteEntityReply {
            reply: Some(Err(ActorRefErr::ActorUnavailable)),
            outcome: Err(ActorRefErr::ActorUnavailable),
        },
    }
}

/// Computes [`remote_reply`].
pub fn remote_entity_reply(response: Option<RemoteResponse>) -> (r: RemoteEntityReply)
    ensures
        r == remote_reply(response),
{
    match response {
        Some(response) => {
            let reply = match response.into_result() {
                Ok(bytes) => Ok(bytes),
                Err(_) => Err(ActorRefErr::ActorUnavailable),
            };
            RemoteEntityReply { reply: Some(reply), outcome: Ok(()) }
        },
        None => RemoteEntityReply {
            reply: Some(Err(ActorRefErr::ActorUnavailable)),
            outcome: Err(ActorRefErr::ActorUnavailable),
        },
    }
}

} // verus!

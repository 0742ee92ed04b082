use vstd::prelude::*;
use crate::ids::Identifier;

verus! {

/// The closed set of entity kinds a reference may resolve to. An identifier
/// resolves to at most one entity, and requesting it under a different kind
/// is a hard failure, never a coercion.
#[derive(Clone, Copy, Debug, PartialEq, Eq, Structural)]
pub enum EntityKind {
    Actor,
    Post,
    Comment,
    PrivateMessage,
}

/// A resolved federation entity mapped into local shape. For actors the key
/// and inbox fields carry the signing and delivery endpoints; for content the
/// title and body carry the payload.
pub struct Entity {
    /// The identifier this entity is stored under.
    pub id: Identifier,
    /// The kind the entity was resolved as.
    pub kind: EntityKind,
    /// Display title or name.
    pub title: String,
    /// Body text.
    pub body: String,
    /// Public key material (actors).
    pub public_key: String,
    /// Personal inbox endpoint (actors).
    pub inbox: String,
    /// Optional per-instance shared inbox endpoint (actors).
    pub shared_inbox: Option<String>,
}

impl Entity {
    /// Field-level merge: an incoming snapshot of the same identifier
    /// replaces the mutable fields, while identity and kind are kept from
    /// the stored entity.
    pub open spec fn merged_spec(self, incoming: Entity) -> Entity {
        Entity {
            id: self.id,
            kind: self.kind,
            title: incoming.title,
            body: incoming.body,
            public_key: incoming.public_key,
            inbox: incoming.inbox,
            shared_inbox: incoming.shared_inbox,
        }
    }

    /// An owned copy of the entity.
    pub fn duplicate(&self) -> (r: Entity)
        ensures
            r == *self,
    {
        Entity {
            id: self.id.duplicate(),
            kind: self.kind,
            title: self.title.clone(),
            body: self.body.clone(),
            public_key: self.public_key.clone(),
            inbox: self.inbox.clone(),
            shared_inbox: match &self.shared_inbox {
                Some(s) => Some(s.clone()),
                None => None,
            },
        }
    }

    /// The stored entity merged with an incoming snapshot.
    pub fn merged(&self, incoming: &Entity) -> (r: Entity)
        ensures
            r == self.merged_spec(*incoming),
    {
        Entity {
            id: self.id.duplicate(),
            kind: self.kind,
            title: incoming.title.clone(),
            body: incoming.body.clone(),
            public_key: incoming.public_key.clone(),
            inbox: incoming.inbox.clone(),
            shared_inbox: match &incoming.shared_inbox {
                Some(s) => Some(s.clone()),
                None => None,
            },
        }
    }
}

} // verus!

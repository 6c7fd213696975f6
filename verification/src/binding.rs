//! Property bindings: a live link keeping one object's property
//! synchronized with another's.
//!
//! A binding installs a notification handler on the source property whose
//! behavior reads the source, applies the transform and writes the target.
//! A bidirectional binding installs the mirror handler too; each direction
//! blocks its peer while writing, so the two never feed each other.

use vstd::prelude::*;
use crate::error::ObjectError;
use crate::object::{
    handler_by_id,
    lemma_handler_by_id,
    lemma_handler_by_id_update,
    token_connected,
    token_disconnected,
    token_live,
    Object,
    Runtime,
};
use crate::signals::{transform_clone, Handler, HandlerBehavior, HandlerTarget, SignalHandlerId, Transform};

verus! {

/// How a binding behaves.
#[derive(Clone, Copy, PartialEq, Eq, Structural, Debug)]
pub struct BindingFlags {
    /// Writes to the target also propagate back to the source.
    pub bidirectional: bool,
    /// The target is synchronized from the source when the binding is
    /// created.
    pub sync_create: bool,
    /// Boolean values are negated on the way; used when no transform is
    /// given.
    pub invert_boolean: bool,
}

impl BindingFlags {
    /// One-way, no initial synchronization, values passed unchanged.
    pub fn default_flags() -> (r: BindingFlags)
        ensures
            r == (BindingFlags { bidirectional: false, sync_create: false, invert_boolean: false }),
    {
        BindingFlags { bidirectional: false, sync_create: false, invert_boolean: false }
    }

    /// The same flags, bidirectional.
    pub fn with_bidirectional(self) -> (r: BindingFlags)
        ensures
            r == (BindingFlags { bidirectional: true, ..self }),
    {
        BindingFlags { bidirectional: true, ..self }
    }

    /// The same flags, with initial synchronization.
    pub fn with_sync_create(self) -> (r: BindingFlags)
        ensures
            r == (BindingFlags { sync_create: true, ..self }),
    {
        BindingFlags { sync_create: true, ..self }
    }
}

/// An established binding: the instances involved and the tokens of the
/// installed handlers.
#[derive(Clone, Copy, Debug)]
pub struct Binding {
    /// The source instance.
    pub source: usize,
    /// The target instance.
    pub target: usize,
    /// The handler synchronizing the target from the source.
    pub forward: SignalHandlerId,
    /// For bidirectional bindings, the handler synchronizing the source
    /// from the target.
    pub backward: Option<SignalHandlerId>,
}

impl Binding {
    /// The binding's tokens still name live, connected handlers, and the
    /// two tokens are distinct — the state in which tearing the binding
    /// down is owed success.
    pub open spec fn live(self, rt: Runtime) -> bool {
        &&& token_live(rt, self.forward)
        &&& token_connected(rt, self.forward)
        &&& (match self.backward {
            Some(b) => {
                &&& token_live(rt, b)
                &&& token_connected(rt, b)
                &&& !(b.object == self.forward.object && b.raw == self.forward.raw)
            },
            None => true,
        })
    }

    /// Tears the binding down: the installed notification handlers are
    /// disconnected and the properties stop tracking each other.  On a live
    /// binding this succeeds and leaves both handlers disconnected; undoing
    /// a binding twice is an error, as disconnecting any dead token is.
    pub fn unbind(&self, rt: &mut Runtime) -> (r: Result<(), ObjectError>)
        requires
            old(rt).wf(),
        ensures
            final(rt).wf(),
            final(rt).registry == old(rt).registry,
            final(rt).journal == old(rt).journal,
            self.live(*old(rt)) ==> ({
                &&& r is Ok
                &&& token_disconnected(*final(rt), self.forward)
                &&& (match self.backward {
                    Some(b) => token_disconnected(*final(rt), b),
                    None => true,
                })
            }),
    {
        let ghost fwd = self.forward;
        let ghost hs0 = if fwd.object < old(rt).instances@.len() {
            old(rt).instances@[fwd.object as int].handlers@
        } else {
            Seq::<Handler>::empty()
        };
        let first = rt.disconnect(self.forward);
        let ghost mid = *rt;
        proof {
            if self.live(*old(rt)) {
                lemma_handler_by_id(hs0, fwd.raw);
                let jf = handler_by_id(hs0, fwd.raw).unwrap();
                assert(mid.instances@[fwd.object as int].handlers@ == hs0.update(
                    jf,
                    Handler { connected: false, ..hs0[jf] },
                ));
                lemma_handler_by_id_update(
                    hs0,
                    jf,
                    Handler { connected: false, ..hs0[jf] },
                    fwd.raw,
                );
                assert(token_disconnected(mid, fwd));
                match self.backward {
                    Some(b) => {
                        if b.object == fwd.object {
                            lemma_handler_by_id_update(
                                hs0,
                                jf,
                                Handler { connected: false, ..hs0[jf] },
                                b.raw,
                            );
                            lemma_handler_by_id(hs0, b.raw);
                            let jb = handler_by_id(hs0, b.raw).unwrap();
                            assert(jb != jf) by {
                                assert(hs0[jb].id == b.raw);
                                assert(hs0[jf].id == fwd.raw);
                            }
                            assert(mid.instances@[b.object as int].handlers@[jb] == hs0[jb]);
                            assert(token_connected(mid, b));
                        } else {
                            assert(mid.instances@[b.object as int] == old(rt).instances@[b.object
                                as int]);
                        }
                        assert(token_live(mid, b) && token_connected(mid, b));
                    },
                    None => {},
                }
            }
        }
        let second = match &self.backward {
            Some(b) => {
                let tok = SignalHandlerId { object: b.object, raw: b.raw };
                let r2 = rt.disconnect(tok);
                proof {
                    if self.live(*old(rt)) {
                        let bhs = mid.instances@[b.object as int].handlers@;
                        lemma_handler_by_id(bhs, b.raw);
                        let jb = handler_by_id(bhs, b.raw).unwrap();
                        assert(rt.instances@[b.object as int].handlers@ == bhs.update(
                            jb,
                            Handler { connected: false, ..bhs[jb] },
                        ));
                        lemma_handler_by_id_update(
                            bhs,
                            jb,
                            Handler { connected: false, ..bhs[jb] },
                            b.raw,
                        );
                        assert(token_disconnected(*rt, tok));
                        // The forward handler stays disconnected: the second
                        // disconnection touched a different handler.
                        if b.object == fwd.object {
                            lemma_handler_by_id_update(
                                bhs,
                                jb,
                                Handler { connected: false, ..bhs[jb] },
                                fwd.raw,
                            );
                            lemma_handler_by_id(bhs, fwd.raw);
                            let jf2 = handler_by_id(bhs, fwd.raw).unwrap();
                            assert(jf2 != jb) by {
                                assert(bhs[jb].id == b.raw);
                                assert(bhs[jf2].id == fwd.raw);
                            }
                            assert(rt.instances@[fwd.object as int].handlers@[jf2] == bhs[jf2]);
                        } else {
                            assert(rt.instances@[fwd.object as int] == mid.instances@[fwd.object
                                as int]);
                        }
                        assert(token_disconnected(*rt, fwd));
                    }
                }
                r2
            },
            None => Ok(()),
        };
        match (first, second) {
            (Ok(()), Ok(())) => Ok(()),
            (Err(e), _) => Err(e),
            (_, Err(e)) => Err(e),
        }
    }
}

/// A binding under construction.
#[derive(Debug)]
pub struct BindingBuilder {
    /// The source instance.
    pub source: usize,
    /// The source property's name.
    pub source_property: String,
    /// The target instance.
    pub target: usize,
    /// The target property's name.
    pub target_property: String,
    /// The binding's flags.
    pub flags: BindingFlags,
    /// The transform applied from source to target.
    pub transform_to: Option<Transform>,
    /// The transform applied from target back to source.
    pub transform_from: Option<Transform>,
}

impl BindingBuilder {
    /// The builder's source instance.
    pub open spec fn spec_source(self) -> usize {
        self.source
    }

    /// The builder's target instance.
    pub open spec fn spec_target(self) -> usize {
        self.target
    }

    /// The builder's source property name.
    pub open spec fn spec_source_property(self) -> Seq<char> {
        self.source_property@
    }

    /// The builder's target property name.
    pub open spec fn spec_target_property(self) -> Seq<char> {
        self.target_property@
    }

    /// The builder's flags.
    pub open spec fn spec_flags(self) -> BindingFlags {
        self.flags
    }

    /// The transform the forward direction will use: the one given, or the
    /// boolean inversion when the flags ask for it, or the identity.
    pub open spec fn forward_transform_of(self) -> Transform {
        match self.transform_to {
            Some(t) => t,
            None => if self.flags.invert_boolean {
                Transform::InvertBool
            } else {
                Transform::Identity
            },
        }
    }

    /// The notification handler the forward direction installs.
    pub open spec fn forward_behavior_of(self) -> HandlerBehavior {
        HandlerBehavior::SyncProperty {
            source: self.source,
            source_property: self.source_property,
            target: self.target,
            target_property: self.target_property,
            transform: self.forward_transform_of(),
            peer: if self.flags.bidirectional {
                Some((self.target, 0))
            } else {
                None
            },
        }
    }

    /// Begins a binding from one object's property to another's.
    pub fn new(source: &Object, source_property: &str, target: &Object, target_property: &str)
        -> (r: BindingBuilder)
        ensures
            r.spec_source() == source.id,
            r.spec_target() == target.id,
            r.spec_source_property() == source_property@,
            r.spec_target_property() == target_property@,
            r.spec_flags() == (BindingFlags {
                bidirectional: false,
                sync_create: false,
                invert_boolean: false,
            }),
            r.transform_to is None,
            r.transform_from is None,
    {
        BindingBuilder {
            source: source.id,
            source_property: String::from_str(source_property),
            target: target.id,
            target_property: String::from_str(target_property),
            flags: BindingFlags::default_flags(),
            transform_to: None,
            transform_from: None,
        }
    }

    /// Sets the transform applied from source to target; everything else is
    /// kept.
    pub fn transform_to(self, t: Transform) -> (r: BindingBuilder)
        ensures
            r == (BindingBuilder { transform_to: Some(t), ..self }),
    {
        BindingBuilder { transform_to: Some(t), ..self }
    }

    /// Sets the transform applied from target back to source; everything
    /// else is kept.
    pub fn transform_from(self, t: Transform) -> (r: BindingBuilder)
        ensures
            r == (BindingBuilder { transform_from: Some(t), ..self }),
    {
        BindingBuilder { transform_from: Some(t), ..self }
    }

    /// Sets the binding's flags; everything else — the endpoints, the
    /// property names and both transforms — is kept.
    pub fn flags(self, flags: BindingFlags) -> (r: BindingBuilder)
        ensures
            r == (BindingBuilder { flags, ..self }),
    {
        BindingBuilder { flags, ..self }
    }

    /// Establishes the binding: checks that the source property is readable
    /// and the target property writable, installs the notification handlers,
    /// and — when asked — synchronizes the target once.  Returns nothing if
    /// either property is unsuitable, leaving everything unchanged.
    pub fn build(self, rt: &mut Runtime) -> (r: Option<Binding>)
        requires
            old(rt).wf(),
            self.spec_source() < old(rt).instances@.len(),
            self.spec_target() < old(rt).instances@.len(),
            old(rt).instances@[self.spec_source() as int].alive,
            old(rt).instances@[self.spec_target() as int].alive,
            old(rt).instances@[self.spec_source() as int].next_handler_id < u64::MAX - 1,
            old(rt).instances@[self.spec_target() as int].next_handler_id < u64::MAX - 1,
        ensures
            final(rt).wf(),
            final(rt).registry == old(rt).registry,
            ({
                let sty = old(rt).instances@[self.spec_source() as int].ty;
                let tty = old(rt).instances@[self.spec_target() as int].ty;
                let sfind = crate::registry::find_prop_in(
                    old(rt).registry.all_props(sty),
                    self.spec_source_property(),
                );
                let tfind = crate::registry::find_prop_in(
                    old(rt).registry.all_props(tty),
                    self.spec_target_property(),
                );
                let ok = (match sfind {
                    Some(k) => old(rt).registry.all_props(sty)[k].spec.flags.readable,
                    None => false,
                }) && (match tfind {
                    Some(k) => {
                        let f = old(rt).registry.all_props(tty)[k].spec.flags;
                        f.writable && !f.construct_only
                    },
                    None => false,
                });
                &&& (r is Some) == ok
                &&& (!ok ==> *final(rt) == *old(rt))
                &&& (r is Some ==> r->0.source == self.spec_source() && r->0.target
                    == self.spec_target() && r->0.forward.object == self.spec_source() && (
                r->0.backward is Some <==> self.spec_flags().bidirectional))
                // For a one-way binding the installed handler is exact: one
                // more notification handler on the source property whose
                // behavior synchronizes the target through the chosen
                // transform; no other instance's handlers change.
                &&& ((r is Some && !self.spec_flags().bidirectional) ==> ({
                    let pre = old(rt).instances@[self.spec_source() as int];
                    let post = final(rt).instances@[self.spec_source() as int];
                    &&& post.handlers@.len() == pre.handlers@.len() + 1
                    &&& post.handlers@.drop_last() == pre.handlers@
                    &&& ({
                        let h = post.handlers@.last();
                        &&& h.id == r->0.forward.raw
                        &&& (match h.target {
                            HandlerTarget::Notify(Some(pn)) => pn@ == self.spec_source_property(),
                            _ => false,
                        })
                        &&& h.connected
                        &&& h.block_count == 0
                        &&& h.behavior == self.forward_behavior_of()
                    })
                    &&& (forall|m: int|
                        0 <= m < old(rt).instances@.len() && m != self.spec_source() ==> (
                        #[trigger] final(rt).instances@[m]).handlers@ == old(
                            rt,
                        ).instances@[m].handlers@)
                }))
            }),
    {
        let source_obj = rt.from_owned(self.source);
        let target_obj = rt.from_owned(self.target);
        // The source property must be readable.
        let readable = match rt.registry.find_property(rt.instances[self.source].ty,
            self.source_property.as_str()) {
            Some((_, p)) => p.spec.flags.readable,
            None => false,
        };
        // The target property must be writable after construction.
        let writable = match rt.registry.find_property(rt.instances[self.target].ty,
            self.target_property.as_str()) {
            Some((_, p)) => p.spec.flags.writable && !p.spec.flags.construct_only,
            None => false,
        };
        if !readable || !writable {
            return None;
        }
        let forward_transform = match &self.transform_to {
            Some(t) => transform_clone(t),
            None => if self.flags.invert_boolean {
                Transform::InvertBool
            } else {
                Transform::Identity
            },
        };
        let forward_raw = rt.instances[self.source].next_handler_id;
        let backward_raw = if self.source == self.target {
            forward_raw + 1
        } else {
            rt.instances[self.target].next_handler_id
        };
        let peer = if self.flags.bidirectional {
            Some((self.target, backward_raw))
        } else {
            None
        };
        let forward = rt.connect_notify(
            &source_obj,
            Some(self.source_property.as_str()),
            HandlerBehavior::SyncProperty {
                source: self.source,
                source_property: self.source_property.clone(),
                target: self.target,
                target_property: self.target_property.clone(),
                transform: transform_clone(&forward_transform),
                peer,
            },
        );
        let backward = if self.flags.bidirectional {
            let backward_transform = match &self.transform_from {
                Some(t) => transform_clone(t),
                None => if self.flags.invert_boolean {
                    Transform::InvertBool
                } else {
                    Transform::Identity
                },
            };
            let target_obj2 = rt.from_owned(self.target);
            Some(
                rt.connect_notify(
                    &target_obj2,
                    Some(self.target_property.as_str()),
                    HandlerBehavior::SyncProperty {
                        source: self.target,
                        source_property: self.target_property.clone(),
                        target: self.source,
                        target_property: self.source_property.clone(),
                        transform: backward_transform,
                        peer: Some((self.source, forward.raw)),
                    },
                ),
            )
        } else {
            None
        };
        // Initial synchronization, when asked: read, transform, write; a
        // value the transform drops is simply not written.
        if self.flags.sync_create {
            match rt.get_property(&source_obj, self.source_property.as_str()) {
                Ok(v) => {
                    match crate::signals::apply_transform(&forward_transform, &v) {
                        Some(tv) => {
                            let target_obj3 = rt.from_owned(self.target);
                            let _ = rt.set_property(
                                &target_obj3,
                                self.target_property.as_str(),
                                &tv,
                            );
                        },
                        None => {},
                    }
                },
                Err(_) => {},
            }
        }
        Some(Binding { source: self.source, target: self.target, forward, backward })
    }
}

} // verus!

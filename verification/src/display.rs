//! The display: the facade that owns the execution context and the
//! reference counts of every server-side resource.
//!
//! Handles to buffers, textures, shaders and framebuffers are reference
//! counted here.  Creating a resource registers it with one reference;
//! handles are duplicated and released through the display; releasing the
//! last reference retires the resource and enqueues exactly one deletion
//! command for it — fire and forget, never blocking — and never a second
//! one.  The display also keeps the audit log of every deletion command it
//! ever enqueued, so that the single-deletion discipline is observable.

use vstd::prelude::*;
use vstd::string::StringSliceAdditionalSpecFns;

use crate::context::Context;
use crate::context::Event;
use crate::context::spec_pending_async_ok;
use crate::context::spec_pending_deletes;
use crate::context::spec_cmd_deletes;
use crate::context::Message;
use crate::gl;
use crate::gpu::CmdResult;
use crate::gpu::GlCmd;
use crate::gpu::GpuObject;
use crate::gpu::spec_cmd_allocates;
use crate::gpu::spec_has_object;
use crate::gpu::spec_obj_id;
use crate::gpu::spec_object_of;
use crate::context::spec_has_end;

verus! {

/// The kind of a reference-counted resource, deciding which deletion
/// command its retirement enqueues.
#[derive(Clone, Copy, PartialEq, Eq, Structural, Debug)]
pub enum ResourceKind {
    /// A vertex or index data buffer.
    Buffer,
    /// A texture.
    Texture,
    /// A compiled shader stage.
    Shader,
    /// A framebuffer object.
    Framebuffer,
    /// A render buffer.
    Renderbuffer,
}

/// The deletion command for a resource of the given kind.
pub open spec fn spec_delete_cmd(kind: ResourceKind, id: u32) -> GlCmd {
    match kind {
        ResourceKind::Buffer => GlCmd::DeleteBuffer { id },
        ResourceKind::Texture => GlCmd::DeleteTexture { id },
        ResourceKind::Shader => GlCmd::DeleteShader { id },
        ResourceKind::Framebuffer => GlCmd::DeleteFramebuffer { id },
        ResourceKind::Renderbuffer => GlCmd::DeleteRenderbuffer { id },
    }
}

/// One live resource: its server-side name, its kind, and how many handles
/// hold it.
#[derive(Clone, Copy, PartialEq, Eq, Structural, Debug)]
pub struct RefEntry {
    /// The server-side object name.
    pub id: u32,
    /// The resource kind.
    pub kind: ResourceKind,
    /// The number of handles holding the resource.
    pub count: u32,
}

/// The index of the registry entry for `id`, or -1 if there is none.
pub open spec fn spec_reg_index(reg: Seq<RefEntry>, id: u32) -> int
    decreases reg.len(),
{
    if reg.len() == 0 {
        -1
    } else if reg[0].id == id {
        0
    } else {
        let r = spec_reg_index(reg.drop_first(), id);
        if r == -1 {
            -1
        } else {
            r + 1
        }
    }
}

/// The index returned by `spec_reg_index` is a valid index of a matching
/// entry, and -1 exactly when no entry matches.
pub proof fn lemma_reg_index_props(reg: Seq<RefEntry>, id: u32)
    ensures
        spec_reg_index(reg, id) >= 0 ==> spec_reg_index(reg, id) < reg.len()
            && reg[spec_reg_index(reg, id)].id == id,
        spec_reg_index(reg, id) == -1 ==> forall|k: int|
            0 <= k < reg.len() ==> (#[trigger] reg[k]).id != id,
        spec_reg_index(reg, id) >= -1,
    decreases reg.len(),
{
    if reg.len() > 0 {
        lemma_reg_index_props(reg.drop_first(), id);
        if spec_reg_index(reg, id) == -1 {
            assert forall|k: int| 0 <= k < reg.len() implies (#[trigger] reg[k]).id != id by {
                if k > 0 {
                    assert(reg.drop_first()[k - 1] == reg[k]);
                }
            }
        }
    }
}

/// If the first `m` entries do not carry `id`, the index of `id` in the
/// whole registry is its index in the rest, shifted by `m`.
proof fn lemma_reg_index_skip(reg: Seq<RefEntry>, id: u32, m: int)
    requires
        0 <= m <= reg.len(),
        forall|k: int| 0 <= k < m ==> (#[trigger] reg[k]).id != id,
    ensures
        spec_reg_index(reg, id) == if spec_reg_index(reg.skip(m), id) == -1 {
            -1
        } else {
            spec_reg_index(reg.skip(m), id) + m
        },
    decreases m,
{
    if m > 0 {
        assert(reg[0].id != id);
        assert forall|k: int| 0 <= k < m - 1 implies (#[trigger] reg.drop_first()[k]).id != id by {
            assert(reg.drop_first()[k] == reg[k + 1]);
        }
        lemma_reg_index_skip(reg.drop_first(), id, m - 1);
        assert(reg.drop_first().skip(m - 1) =~= reg.skip(m));
        lemma_reg_index_props(reg.skip(m), id);
        let r = spec_reg_index(reg.drop_first(), id);
        assert(spec_reg_index(reg, id) == if r == -1 {
            -1int
        } else {
            r + 1
        });
    } else {
        assert(reg.skip(0) =~= reg);
    }
}

/// Finds the registry entry for `id`.
fn reg_find(reg: &Vec<RefEntry>, id: u32) -> (r: Option<usize>)
    ensures
        match r {
            Some(i) => spec_reg_index(reg@, id) == i as int,
            None => spec_reg_index(reg@, id) == -1,
        },
{
    let n = reg.len();
    let mut i: usize = 0;
    while i < n
        invariant
            n == reg@.len(),
            i <= n,
            forall|k: int| 0 <= k < i ==> (#[trigger] reg@[k]).id != id,
        decreases n - i,
    {
        if reg[i].id == id {
            proof {
                lemma_reg_index_skip(reg@, id, i as int);
                assert(reg@.skip(i as int)[0] == reg@[i as int]);
            }
            return Some(i);
        }
        i = i + 1;
    }
    proof {
        lemma_reg_index_skip(reg@, id, n as int);
        assert(reg@.skip(n as int).len() == 0);
    }
    None
}

/// How many times `id` occurs in a list of object names.
pub open spec fn spec_count_of(s: Seq<u32>, id: u32) -> nat
    decreases s.len(),
{
    if s.len() == 0 {
        0
    } else {
        spec_count_of(s.drop_last(), id) + if s.last() == id {
            1nat
        } else {
            0nat
        }
    }
}

/// A name that occurs nowhere in the list is counted zero times.
pub proof fn lemma_count_of_zero(s: Seq<u32>, id: u32)
    requires
        forall|i: int| 0 <= i < s.len() ==> (#[trigger] s[i]) != id,
    ensures
        spec_count_of(s, id) == 0,
    decreases s.len(),
{
    if s.len() > 0 {
        assert forall|i: int| 0 <= i < s.drop_last().len() implies (#[trigger] s.drop_last()[i])
            != id by {
            assert(s.drop_last()[i] == s[i]);
        }
        lemma_count_of_zero(s.drop_last(), id);
    }
}

/// The main object of the library: owns the execution context and controls
/// the whole display.
pub struct Display {
    /// The command-execution context.
    pub context: Context,
    /// The live resources and their reference counts.
    pub registry: Vec<RefEntry>,
    /// The names of resources whose last reference was released.
    pub retired: Vec<u32>,
    /// Every deletion command the display ever enqueued, in order.
    pub delete_log: Vec<u32>,
}

impl Display {
    /// Whether at least one handle holds the resource named `id`.
    pub open spec fn spec_live(self, id: u32) -> bool {
        spec_reg_index(self.registry@, id) >= 0
    }

    /// The number of handles holding the resource named `id`.
    pub open spec fn spec_count(self, id: u32) -> u32 {
        self.registry@[spec_reg_index(self.registry@, id)].count
    }

    /// The kind registered for the resource named `id`.
    pub open spec fn spec_kind(self, id: u32) -> ResourceKind {
        self.registry@[spec_reg_index(self.registry@, id)].kind
    }

    /// Whether the resource named `id` has been retired: its last handle
    /// was released.
    pub open spec fn spec_retired(self, id: u32) -> bool {
        spec_count_of(self.retired@, id) >= 1
    }

    /// The display's invariant.
    ///
    /// The context is well formed and only fire-and-forget commands wait in
    /// its queue.  Registry entries are unique, counted at least once, and
    /// name existing server objects that are neither retired nor awaiting
    /// deletion.  The deletion log holds exactly one entry for every retired
    /// resource and none for any other: releasing the last handle enqueues
    /// exactly one deletion command, never more.
    pub open spec fn wf(self) -> bool {
        &&& self.context.wf()
        &&& spec_pending_async_ok(self.context.pending@)
        &&& forall|i: int, j: int|
            0 <= i < j < self.registry@.len() ==> (#[trigger] self.registry@[i]).id != (
            #[trigger] self.registry@[j]).id
        &&& forall|i: int| 0 <= i < self.registry@.len() ==> (#[trigger] self.registry@[i]).count >= 1
        &&& forall|i: int|
            0 <= i < self.registry@.len() ==> spec_has_object(
                self.context.gpu.objects@,
                (#[trigger] self.registry@[i]).id,
            )
        &&& forall|i: int|
            0 <= i < self.registry@.len() ==> spec_count_of(
                self.retired@,
                (#[trigger] self.registry@[i]).id,
            ) == 0
        &&& forall|i: int|
            0 <= i < self.registry@.len() ==> !spec_pending_deletes(
                self.context.pending@,
                (#[trigger] self.registry@[i]).id,
            )
        &&& forall|id: u32|
            spec_count_of(self.delete_log@, id) == spec_count_of(self.retired@, id)
        &&& forall|id: u32| spec_count_of(self.retired@, id) <= 1
        &&& forall|i: int|
            0 <= i < self.retired@.len() ==> (#[trigger] self.retired@[i])
                < self.context.gpu.next_id
    }

    /// Reads all events received by the window, without blocking.
    pub fn poll_events(&mut self) -> (r: Vec<Event>)
        requires
            old(self).wf(),
        ensures
            final(self).wf(),
            r@ == old(self).context.events@,
            final(self).context.events@ == Seq::<Event>::empty(),
            final(self).context.pending == old(self).context.pending,
            final(self).context.executed == old(self).context.executed,
            final(self).context.gpu == old(self).context.gpu,
            final(self).context.state == old(self).context.state,
            final(self).registry == old(self).registry,
            final(self).retired == old(self).retired,
            final(self).delete_log == old(self).delete_log,
    {
        self.context.recv()
    }

    /// Registers a freshly created resource with one reference.
    pub(crate) fn insert_resource(&mut self, id: u32, kind: ResourceKind)
        requires
            old(self).wf(),
            spec_has_object(old(self).context.gpu.objects@, id),
            !old(self).spec_live(id),
            spec_count_of(old(self).retired@, id) == 0,
            !spec_pending_deletes(old(self).context.pending@, id),
        ensures
            final(self).wf(),
            final(self).registry@ == old(self).registry@.push(RefEntry { id, kind, count: 1 }),
            final(self).context == old(self).context,
            final(self).retired == old(self).retired,
            final(self).delete_log == old(self).delete_log,
            final(self).spec_live(id),
            final(self).spec_count(id) == 1,
            final(self).spec_kind(id) == kind,
            forall|oid: u32| old(self).spec_live(oid) ==> final(self).spec_live(oid),
            forall|oid: u32|
                oid != id && #[trigger] final(self).spec_live(oid) ==> old(self).spec_live(oid)
                    && final(self).spec_count(oid) == old(self).spec_count(oid) && final(self).spec_kind(oid) == old(self).spec_kind(oid),
    {
        let entry = RefEntry { id, kind, count: 1 };
        proof {
            lemma_reg_index_props(self.registry@, id);
            assert forall|oid: u32| true implies spec_reg_index(
                self.registry@.push(entry),
                oid,
            ) == if spec_reg_index(self.registry@, oid) >= 0 {
                spec_reg_index(self.registry@, oid)
            } else if oid == id {
                self.registry@.len() as int
            } else {
                -1int
            } by {
                lemma_reg_index_push(self.registry@, entry, oid);
                lemma_reg_index_props(self.registry@, oid);
                lemma_reg_index_props(self.registry@.push(entry), oid);
            }
        }
        self.registry.push(entry);
        proof {
            assert forall|oid: u32|
                oid != id && self.spec_live(oid) implies old(self).spec_live(oid)
                && self.spec_count(oid) == old(self).spec_count(oid) && self.spec_kind(oid) == old(self).spec_kind(oid) by {
                lemma_reg_index_push(old(self).registry@, entry, oid);
                lemma_reg_index_props(old(self).registry@, oid);
                lemma_reg_index_props(self.registry@, oid);
            }
        }
    }

    /// Adds one reference to a live resource: a handle is being duplicated.
    pub(crate) fn retain_resource(&mut self, id: u32)
        requires
            old(self).wf(),
            old(self).spec_live(id),
            old(self).spec_count(id) < u32::MAX,
        ensures
            final(self).wf(),
            final(self).context == old(self).context,
            final(self).retired == old(self).retired,
            final(self).delete_log == old(self).delete_log,
            final(self).spec_live(id),
            final(self).spec_count(id) == old(self).spec_count(id) + 1,
            final(self).spec_kind(id) == old(self).spec_kind(id),
            forall|oid: u32|
                #[trigger] old(self).spec_live(oid) ==> final(self).spec_live(oid) && final(self).spec_kind(oid) == old(self).spec_kind(oid),
            forall|oid: u32| #[trigger] final(self).spec_live(oid) ==> old(self).spec_live(oid),
            forall|oid: u32|
                oid != id && #[trigger] old(self).spec_live(oid) ==> final(self).spec_count(oid)
                    == old(self).spec_count(oid),
    {
        let idx = match reg_find(&self.registry, id) {
            Some(i) => i,
            None => {
                proof {
                    assert(false);
                }
                0
            },
        };
        proof {
            lemma_reg_index_props(self.registry@, id);
        }
        let new_entry = RefEntry {
            id: self.registry[idx].id,
            kind: self.registry[idx].kind,
            count: self.registry[idx].count + 1,
        };
        proof {
            assert forall|oid: u32| true implies spec_reg_index(
                self.registry@.update(idx as int, new_entry),
                oid,
            ) == spec_reg_index(self.registry@, oid) by {
                lemma_reg_index_update(self.registry@, idx as int, new_entry, oid);
                lemma_reg_index_props(self.registry@, oid);
            }
        }
        self.registry[idx] = new_entry;
        proof {
            assert forall|oid: u32| self.spec_live(oid) == old(self).spec_live(oid) && (oid != id
                && old(self).spec_live(oid) ==> self.spec_count(oid) == old(self).spec_count(oid))
                && (old(self).spec_live(oid) ==> self.spec_kind(oid) == old(self).spec_kind(
                oid,
            )) by {
                lemma_reg_index_update(old(self).registry@, idx as int, new_entry, oid);
                lemma_reg_index_props(old(self).registry@, oid);
                lemma_reg_index_props(self.registry@, oid);
            }
        }
    }

    /// Releases one reference to a live resource.  Releasing the last
    /// reference retires the resource and enqueues exactly one deletion
    /// command for it — fire and forget: the call never blocks and never
    /// waits for the deletion to run.
    pub(crate) fn release_resource(&mut self, id: u32)
        requires
            old(self).wf(),
            old(self).spec_live(id),
            old(self).context.next_ticket < u64::MAX,
        ensures
            final(self).wf(),
            final(self).context.gpu == old(self).context.gpu,
            final(self).context.state == old(self).context.state,
            final(self).context.events == old(self).context.events,
            final(self).context.executed == old(self).context.executed,
            old(self).context.next_ticket <= final(self).context.next_ticket <= old(self).context.next_ticket + 1,
            old(self).spec_count(id) > 1 ==> {
                &&& final(self).spec_live(id)
                &&& final(self).spec_count(id) == old(self).spec_count(id) - 1
                &&& final(self).context == old(self).context
                &&& final(self).retired == old(self).retired
                &&& final(self).delete_log == old(self).delete_log
            },
            old(self).spec_count(id) == 1 ==> {
                &&& !final(self).spec_live(id)
                &&& final(self).spec_retired(id)
                &&& final(self).retired@ == old(self).retired@.push(id)
                &&& final(self).delete_log@ == old(self).delete_log@.push(id)
                &&& final(self).context.pending@ == old(self).context.pending@.push(
                    Message::Execute {
                        ticket: old(self).context.next_ticket,
                        cmd: spec_delete_cmd(old(self).spec_kind(id), id),
                    },
                )
                &&& spec_count_of(final(self).delete_log@, id) == 1
            },
            forall|oid: u32|
                oid != id ==> (old(self).spec_live(oid) <==> final(self).spec_live(oid)),
            forall|oid: u32|
                oid != id && #[trigger] old(self).spec_live(oid) ==> final(self).spec_count(oid)
                    == old(self).spec_count(oid) && final(self).spec_kind(oid) == old(self).spec_kind(oid),
    {
        let idx = match reg_find(&self.registry, id) {
            Some(i) => i,
            None => {
                proof {
                    assert(false);
                }
                0
            },
        };
        proof {
            lemma_reg_index_props(self.registry@, id);
        }
        let count = self.registry[idx].count;
        if count > 1 {
            let new_entry = RefEntry {
                id: self.registry[idx].id,
                kind: self.registry[idx].kind,
                count: count - 1,
            };
            proof {
                assert forall|oid: u32| true implies spec_reg_index(
                    self.registry@.update(idx as int, new_entry),
                    oid,
                ) == spec_reg_index(self.registry@, oid) by {
                    lemma_reg_index_update(self.registry@, idx as int, new_entry, oid);
                    lemma_reg_index_props(self.registry@, oid);
                }
            }
            self.registry[idx] = new_entry;
            proof {
                assert forall|oid: u32| self.spec_live(oid) == old(self).spec_live(oid) && (oid
                    != id && old(self).spec_live(oid) ==> self.spec_count(oid) == old(self).spec_count(oid)) && (old(self).spec_live(oid) ==> self.spec_kind(oid) == old(self).spec_kind(oid)) by {
                    lemma_reg_index_update(old(self).registry@, idx as int, new_entry, oid);
                    lemma_reg_index_props(old(self).registry@, oid);
                    lemma_reg_index_props(self.registry@, oid);
                }
            }
        } else {
            let kind = self.registry[idx].kind;
            let ghost old_registry = self.registry@;
            proof {
                old_registry.remove_ensures(idx as int);
                assert forall|oid: u32| oid != id implies spec_reg_index(
                    old_registry.remove(idx as int),
                    oid,
                ) == if spec_reg_index(old_registry, oid) == -1 {
                    -1int
                } else if spec_reg_index(old_registry, oid) < idx as int {
                    spec_reg_index(old_registry, oid)
                } else {
                    spec_reg_index(old_registry, oid) - 1
                } by {
                    lemma_reg_index_remove(old_registry, idx as int, oid);
                    lemma_reg_index_props(old_registry, oid);
                    lemma_reg_index_props(old_registry.remove(idx as int), oid);
                }
                lemma_reg_index_remove(old_registry, idx as int, id);
            }
            self.registry.remove(idx);
            proof {
                assert forall|oid: u32|
                    oid != id implies (self.spec_live(oid) == old(self).spec_live(oid)) && (old(self).spec_live(oid) ==> self.spec_count(oid) == old(self).spec_count(oid)
                        && self.spec_kind(oid) == old(self).spec_kind(oid)) by {
                    lemma_reg_index_remove(old_registry, idx as int, oid);
                    lemma_reg_index_props(old_registry, oid);
                    lemma_reg_index_props(self.registry@, oid);
                }
                lemma_reg_index_remove(old_registry, idx as int, id);
            }
            let cmd = match kind {
                ResourceKind::Buffer => GlCmd::DeleteBuffer { id },
                ResourceKind::Texture => GlCmd::DeleteTexture { id },
                ResourceKind::Shader => GlCmd::DeleteShader { id },
                ResourceKind::Framebuffer => GlCmd::DeleteFramebuffer { id },
                ResourceKind::Renderbuffer => GlCmd::DeleteRenderbuffer { id },
            };
            self.context.exec(cmd);
            self.retired.push(id);
            self.delete_log.push(id);
            proof {
                crate::gpu::lemma_index_of_props(self.context.gpu.objects@, id);
                assert(id < self.context.gpu.next_id);
                assert forall|oid: u32| true implies spec_count_of(
                    old(self).retired@.push(id),
                    oid,
                ) == spec_count_of(old(self).retired@, oid) + if oid == id {
                    1int
                } else {
                    0int
                } by {
                    assert(old(self).retired@.push(id).drop_last() =~= old(self).retired@);
                }
                assert forall|oid: u32| true implies spec_count_of(
                    old(self).delete_log@.push(id),
                    oid,
                ) == spec_count_of(old(self).delete_log@, oid) + if oid == id {
                    1int
                } else {
                    0int
                } by {
                    assert(old(self).delete_log@.push(id).drop_last() =~= old(self).delete_log@);
                }
                let newmsg = Message::Execute {
                    ticket: old(self).context.next_ticket,
                    cmd: spec_delete_cmd(kind, id),
                };
                let newpending = old(self).context.pending@.push(newmsg);
                assert forall|oid: u32|
                    oid != id && spec_pending_deletes(newpending, oid) implies spec_pending_deletes(
                    old(self).context.pending@,
                    oid,
                ) by {
                    let i = choose|i: int|
                        0 <= i < newpending.len() && ((#[trigger] newpending[i])
                            matches Message::Execute { cmd, .. } && spec_cmd_deletes(cmd, oid));
                    if i < old(self).context.pending@.len() {
                        assert(old(self).context.pending@[i] == newpending[i]);
                    } else {
                        assert(newpending[i] == newmsg);
                    }
                }
                assert(spec_pending_async_ok(newpending)) by {
                    assert forall|i: int|
                        0 <= i < newpending.len() implies ((#[trigger] newpending[i])
                        matches Message::Execute { cmd, .. }
                        ==> crate::gpu::spec_cmd_async_ok(cmd)) by {
                        if i < old(self).context.pending@.len() {
                            assert(newpending[i] == old(self).context.pending@[i]);
                        } else {
                            assert(newpending[i] == newmsg);
                        }
                    }
                }
            }
        }
    }
}

/// How appending an entry moves the index of every name.
proof fn lemma_reg_index_push(reg: Seq<RefEntry>, e: RefEntry, id: u32)
    ensures
        spec_reg_index(reg.push(e), id) == if spec_reg_index(reg, id) >= 0 {
            spec_reg_index(reg, id)
        } else if e.id == id {
            reg.len() as int
        } else {
            -1
        },
    decreases reg.len(),
{
    lemma_reg_index_props(reg, id);
    if reg.len() == 0 {
        assert(reg.push(e)[0] == e);
        assert(reg.push(e).drop_first() =~= Seq::<RefEntry>::empty());
        assert(spec_reg_index(Seq::<RefEntry>::empty(), id) == -1);
    } else {
        assert(reg.push(e)[0] == reg[0]);
        if reg[0].id != id {
            lemma_reg_index_push(reg.drop_first(), e, id);
            assert(reg.push(e).drop_first() =~= reg.drop_first().push(e));
            lemma_reg_index_props(reg.drop_first(), id);
            let rec = spec_reg_index(reg.push(e).drop_first(), id);
            assert(spec_reg_index(reg.push(e), id) == if rec == -1 {
                -1int
            } else {
                rec + 1
            });
            assert(spec_reg_index(reg, id) == if spec_reg_index(reg.drop_first(), id) == -1 {
                -1int
            } else {
                spec_reg_index(reg.drop_first(), id) + 1
            });
        }
    }
}

/// Replacing an entry by one with the same name leaves every index as it
/// was.
proof fn lemma_reg_index_update(reg: Seq<RefEntry>, k: int, e: RefEntry, id: u32)
    requires
        0 <= k < reg.len(),
        e.id == reg[k].id,
    ensures
        spec_reg_index(reg.update(k, e), id) == spec_reg_index(reg, id),
    decreases reg.len(),
{
    if reg.len() > 0 {
        if k == 0 {
            assert(reg.update(k, e)[0] == e);
            assert(reg.update(k, e).drop_first() =~= reg.drop_first());
        } else {
            assert(reg.update(k, e)[0] == reg[0]);
            assert(reg.update(k, e).drop_first() =~= reg.drop_first().update(k - 1, e));
            if reg[0].id != id {
                lemma_reg_index_update(reg.drop_first(), k - 1, e, id);
            }
        }
    }
}

/// How removing the entry at `k` moves the index of every other name,
/// assuming entry names are unique.
proof fn lemma_reg_index_remove(reg: Seq<RefEntry>, k: int, id: u32)
    requires
        0 <= k < reg.len(),
        forall|i: int, j: int|
            0 <= i < j < reg.len() ==> (#[trigger] reg[i]).id != (#[trigger] reg[j]).id,
    ensures
        id != reg[k].id ==> spec_reg_index(reg.remove(k), id) == if spec_reg_index(reg, id) == -1 {
            -1int
        } else if spec_reg_index(reg, id) < k {
            spec_reg_index(reg, id)
        } else {
            spec_reg_index(reg, id) - 1
        },
        id == reg[k].id ==> spec_reg_index(reg.remove(k), id) == -1,
    decreases reg.len(),
{
    reg.remove_ensures(k);
    lemma_reg_index_props(reg, id);
    lemma_reg_index_props(reg.remove(k), id);
    if id == reg[k].id {
        if spec_reg_index(reg.remove(k), id) >= 0 {
            let i2 = spec_reg_index(reg.remove(k), id);
            let ri = if i2 < k {
                i2
            } else {
                i2 + 1
            };
            assert(reg.remove(k)[i2] == reg[ri]);
            assert(reg[ri].id == id);
            assert(ri != k);
            assert(false);
        }
    } else {
        if spec_reg_index(reg, id) == -1 {
            if spec_reg_index(reg.remove(k), id) >= 0 {
                let i2 = spec_reg_index(reg.remove(k), id);
                let ri = if i2 < k {
                    i2
                } else {
                    i2 + 1
                };
                assert(reg.remove(k)[i2] == reg[ri]);
                assert(false);
            }
        } else {
            let i1 = spec_reg_index(reg, id);
            assert(i1 != k);
            let j = if i1 < k {
                i1
            } else {
                i1 - 1
            };
            assert(reg.remove(k)[j] == reg[i1]);
            assert(spec_reg_index(reg.remove(k), id) >= 0);
            let i2 = spec_reg_index(reg.remove(k), id);
            let ri = if i2 < k {
                i2
            } else {
                i2 + 1
            };
            assert(reg.remove(k)[i2] == reg[ri]);
            assert(reg[ri].id == id);
            assert(ri == i1);
        }
    }
}

/// Releasing the last handle of a resource enqueues exactly one deletion
/// command for it, and never more than one: the deletion log of a well
/// formed display holds exactly one entry for every retired resource and
/// none for a live or unknown one.
pub proof fn lemma_single_deletion(d: Display, id: u32)
    requires
        d.wf(),
    ensures
        d.spec_retired(id) ==> spec_count_of(d.delete_log@, id) == 1,
        !d.spec_retired(id) ==> spec_count_of(d.delete_log@, id) == 0,
        d.spec_live(id) ==> spec_count_of(d.delete_log@, id) == 0,
{
    if d.spec_live(id) {
        lemma_reg_index_props(d.registry@, id);
    }
}

impl Display {
    /// Submits one command synchronously, as every resource builder does:
    /// the consumer first gets through everything already queued — the
    /// command runs after it, in submission order — then applies the
    /// command, and the caller receives its result.  The calling thread is
    /// blocked for exactly that long; nothing else can interleave.
    #[verifier::rlimit(100)]
    pub(crate) fn submit(&mut self, cmd: GlCmd) -> (r: CmdResult)
        requires
            old(self).wf(),
            old(self).context.state is Running,
            old(self).context.next_ticket < u64::MAX,
            spec_cmd_allocates(cmd) ==> old(self).context.gpu.next_id < u32::MAX,
            forall|oid: u32| old(self).spec_live(oid) ==> !spec_cmd_deletes(cmd, oid),
        ensures
            final(self).wf(),
            final(self).registry == old(self).registry,
            final(self).retired == old(self).retired,
            final(self).delete_log == old(self).delete_log,
            final(self).context.pending@.len() == 0,
            final(self).context.events == old(self).context.events,
            final(self).context.next_frame_ns == old(self).context.next_frame_ns,
            final(self).context.next_ticket == old(self).context.next_ticket + 1,
            final(self).context.gpu.viewport == old(self).context.gpu.viewport,
            (r is Fatal) ==> final(self).context.state is Stopped && final(self).context.failure is Some,
            !(r is Fatal) ==> final(self).context.state is Running && final(self).context.failure
                == old(self).context.failure,
            final(self).context.gpu.frames@.len() >= old(self).context.gpu.frames@.len(),
            forall|i: int|
                0 <= i < old(self).context.gpu.frames@.len() ==> final(self).context.gpu.frames@[i]
                    == old(self).context.gpu.frames@[i],
            !spec_has_end(old(self).context.pending@) ==> final(self).context.gpu.frames == old(self).context.gpu.frames,
            forall|oid: u32|
                #[trigger] old(self).spec_live(oid) && !(cmd matches GlCmd::AttachTexture {
                    fbo,
                    ..
                } && fbo == oid) ==> spec_has_object(final(self).context.gpu.objects@, oid)
                    && spec_object_of(final(self).context.gpu.objects@, oid) == spec_object_of(
                    old(self).context.gpu.objects@,
                    oid,
                ),
            cmd matches GlCmd::GenBuffer { target, data } ==> {
                &&& r matches CmdResult::NewId(nid) && nid == old(self).context.gpu.next_id
                &&& final(self).context.gpu.next_id == old(self).context.gpu.next_id + 1
                &&& spec_has_object(
                    final(self).context.gpu.objects@,
                    old(self).context.gpu.next_id,
                )
                &&& spec_object_of(final(self).context.gpu.objects@, old(self).context.gpu.next_id)
                    == (GpuObject::Buffer { id: old(self).context.gpu.next_id, target, data })
                &&& !old(self).spec_live(old(self).context.gpu.next_id)
                &&& spec_count_of(old(self).retired@, old(self).context.gpu.next_id) == 0
            },
            cmd matches GlCmd::GenTexture {
                bind_point,
                width,
                height,
                depth,
                array_size,
                format,
                data_type,
                unpack_alignment,
                data,
            } ==> {
                &&& r matches CmdResult::NewId(nid) && nid == old(self).context.gpu.next_id
                &&& final(self).context.gpu.next_id == old(self).context.gpu.next_id + 1
                &&& spec_has_object(
                    final(self).context.gpu.objects@,
                    old(self).context.gpu.next_id,
                )
                &&& spec_object_of(final(self).context.gpu.objects@, old(self).context.gpu.next_id)
                    == (GpuObject::Texture {
                    id: old(self).context.gpu.next_id,
                    bind_point,
                    width,
                    height,
                    depth,
                    array_size,
                    format,
                    data_type,
                    unpack_alignment,
                    data,
                })
                &&& !old(self).spec_live(old(self).context.gpu.next_id)
                &&& spec_count_of(old(self).retired@, old(self).context.gpu.next_id) == 0
            },
            cmd matches GlCmd::GenFramebuffer ==> {
                &&& r matches CmdResult::NewId(nid) && nid == old(self).context.gpu.next_id
                &&& final(self).context.gpu.next_id == old(self).context.gpu.next_id + 1
                &&& spec_has_object(
                    final(self).context.gpu.objects@,
                    old(self).context.gpu.next_id,
                )
                &&& spec_object_of(final(self).context.gpu.objects@, old(self).context.gpu.next_id)
                    == (GpuObject::Framebuffer {
                    id: old(self).context.gpu.next_id,
                    attachment: None,
                })
                &&& !old(self).spec_live(old(self).context.gpu.next_id)
                &&& spec_count_of(old(self).retired@, old(self).context.gpu.next_id) == 0
            },
            cmd matches GlCmd::GenRenderbuffer ==> {
                &&& r matches CmdResult::NewId(nid) && nid == old(self).context.gpu.next_id
                &&& final(self).context.gpu.next_id == old(self).context.gpu.next_id + 1
                &&& spec_has_object(
                    final(self).context.gpu.objects@,
                    old(self).context.gpu.next_id,
                )
                &&& spec_object_of(final(self).context.gpu.objects@, old(self).context.gpu.next_id)
                    == (GpuObject::Renderbuffer { id: old(self).context.gpu.next_id })
                &&& !old(self).spec_live(old(self).context.gpu.next_id)
                &&& spec_count_of(old(self).retired@, old(self).context.gpu.next_id) == 0
            },
            cmd matches GlCmd::CompileShader { stage, source } ==> {
                &&& (source@.len() == 0 ==> (r matches CmdResult::ShaderError(m) && m@
                    == "shader compilation failed: empty source"@) && final(self).context.gpu.next_id
                    == old(self).context.gpu.next_id)
                &&& (source@.len() > 0 ==> {
                    &&& r matches CmdResult::ShaderCompiled(nid) && nid == old(self).context.gpu.next_id
                    &&& final(self).context.gpu.next_id == old(self).context.gpu.next_id + 1
                    &&& spec_has_object(
                        final(self).context.gpu.objects@,
                        old(self).context.gpu.next_id,
                    )
                    &&& spec_object_of(
                        final(self).context.gpu.objects@,
                        old(self).context.gpu.next_id,
                    ) == (GpuObject::Shader { id: old(self).context.gpu.next_id, stage, source })
                    &&& !old(self).spec_live(old(self).context.gpu.next_id)
                    &&& spec_count_of(old(self).retired@, old(self).context.gpu.next_id) == 0
                })
            },
            cmd matches GlCmd::LinkProgram { shaders } ==> ((forall|i: int|
                0 <= i < shaders@.len() ==> old(self).spec_live(#[trigger] shaders@[i])
                    && spec_object_of(old(self).context.gpu.objects@, shaders@[i]) is Shader)
                ==> {
                let flat_u = crate::gpu::spec_link_decls(
                    old(self).context.gpu.objects@,
                    shaders@,
                    crate::glsl::spec_keyword_uniform(),
                );
                let flat_a = crate::gpu::spec_link_decls(
                    old(self).context.gpu.objects@,
                    shaders@,
                    crate::glsl::spec_keyword_attribute(),
                );
                &&& ((flat_u.len() <= i32::MAX && flat_a.len() <= i32::MAX) ==> {
                    &&& r matches CmdResult::ProgramLinked { id: pid, uniforms: ut } && pid == old(self).context.gpu.next_id && crate::gpu::spec_is_uniform_table(ut@, flat_u)
                    &&& final(self).context.gpu.next_id == old(self).context.gpu.next_id + 1
                    &&& spec_has_object(
                        final(self).context.gpu.objects@,
                        old(self).context.gpu.next_id,
                    )
                    &&& spec_object_of(
                        final(self).context.gpu.objects@,
                        old(self).context.gpu.next_id,
                    ) matches GpuObject::Program { id: pid2, attributes: at } && pid2 == old(self).context.gpu.next_id && crate::gpu::spec_is_attr_table(at@, flat_a)
                    &&& !old(self).spec_live(old(self).context.gpu.next_id)
                    &&& spec_count_of(old(self).retired@, old(self).context.gpu.next_id) == 0
                })
                &&& (!(flat_u.len() <= i32::MAX && flat_a.len() <= i32::MAX) ==> ((r
                    is LinkError) && final(self).context.gpu.next_id == old(self).context.gpu.next_id))
            }),
            cmd matches GlCmd::AttachTexture { fbo, texture } ==> ((old(self).spec_live(fbo)
                && spec_object_of(old(self).context.gpu.objects@, fbo) is Framebuffer) ==> {
                &&& r is Done
                &&& final(self).context.gpu.next_id == old(self).context.gpu.next_id
                &&& spec_has_object(final(self).context.gpu.objects@, fbo)
                &&& spec_object_of(final(self).context.gpu.objects@, fbo) == (
                GpuObject::Framebuffer { id: fbo, attachment: Some(texture) })
            }),
            cmd matches GlCmd::ReadTexture { id } ==> ((old(self).spec_live(id) && spec_object_of(
                old(self).context.gpu.objects@,
                id,
            ) is Texture) ==> (r matches CmdResult::TexData(d) && d@
                == crate::gpu::spec_texture_data(
                spec_object_of(old(self).context.gpu.objects@, id),
            ))),
            cmd matches GlCmd::Draw(params) ==> ((old(self).spec_live(params.program)
                && spec_object_of(old(self).context.gpu.objects@, params.program) is Program)
                ==> {
                let attrs = crate::gpu::spec_program_attrs(
                    spec_object_of(old(self).context.gpu.objects@, params.program),
                );
                &&& final(self).context.gpu.next_id == old(self).context.gpu.next_id
                &&& (!crate::gpu::spec_uniform_tags_ok(params.uniform_values@) ==> (r
                    matches CmdResult::Fatal(m) && m@
                    == "Loading uniforms for this type not implemented"@))
                &&& ((crate::gpu::spec_uniform_tags_ok(params.uniform_values@)
                    && !crate::gpu::spec_bindings_ok(params.bindings.entries@, attrs)) ==> (r
                    matches CmdResult::Fatal(m) && m@ == "Not supported"@))
                &&& ((crate::gpu::spec_uniform_tags_ok(params.uniform_values@)
                    && crate::gpu::spec_bindings_ok(params.bindings.entries@, attrs)) ==> {
                    &&& r is Done
                    &&& final(self).context.gpu.current_draws@.len() >= 1
                    &&& {
                        let d = final(self).context.gpu.current_draws@.last();
                        &&& d.fbo == (match params.fbo {
                            Some(f) => f,
                            None => 0u32,
                        })
                        &&& d.depth_test == false
                        &&& d.blend == true
                        &&& d.blend_src == gl::SRC_ALPHA
                        &&& d.blend_dst == gl::ONE_MINUS_SRC_ALPHA
                        &&& d.program == params.program
                        &&& d.vertex_buffer == params.vertex_buffer
                        &&& d.index_buffer == params.index_buffer
                        &&& d.element_count == params.element_count
                        &&& d.index_type == params.index_type
                        &&& d.primitives == params.primitives
                        &&& d.uniform_values == params.uniform_values
                        &&& d.texture_bindings == params.uniform_textures
                        &&& d.enabled_attributes@ == crate::gpu::spec_enabled_locs(
                            params.bindings.entries@,
                            attrs,
                        )
                    }
                    &&& (!spec_has_end(old(self).context.pending@) ==> final(self).context.gpu.current_draws@.drop_last() == old(self).context.gpu.current_draws@)
                })
            }),
    {
        proof {
            assert forall|oid: u32| old(self).spec_live(oid) implies !spec_pending_deletes(
                old(self).context.pending@,
                oid,
            ) && spec_has_object(old(self).context.gpu.objects@, oid) by {
                lemma_reg_index_props(old(self).registry@, oid);
            }
        }
        self.context.drain();
        let ghost mid_gpu = self.context.gpu;
        let ghost gcmd = cmd;
        let res = match self.context.run_one(cmd) {
            Ok(res) => res,
            Err(()) => {
                proof {
                    assert(false);
                }
                CmdResult::Done
            },
        };
        proof {
            let pre = old(self);
            let og = pre.context.gpu.objects@;
            let fg = self.context.gpu.objects@;
            // Everything a live handle names survived the drain unchanged.
            assert forall|oid: u32| pre.spec_live(oid) implies spec_has_object(mid_gpu.objects@, oid)
                && spec_object_of(mid_gpu.objects@, oid) == spec_object_of(og, oid) by {
                lemma_reg_index_props(pre.registry@, oid);
            }
            let gres = res;
            // Has the command appended one fresh object?
            if fg.len() == mid_gpu.objects@.len() + 1 && fg.drop_last() == mid_gpu.objects@ {
                assert(fg =~= mid_gpu.objects@.push(fg.last()));
            }
            // Every object of the drained table that the command does not
            // delete survives it unchanged.
            assert forall|oid: u32|
                spec_has_object(mid_gpu.objects@, oid) && !spec_cmd_deletes(gcmd, oid) && !(gcmd
                    matches GlCmd::AttachTexture { fbo, .. } && fbo == oid) implies
                spec_has_object(fg, oid) && spec_object_of(fg, oid) == spec_object_of(
                mid_gpu.objects@,
                oid,
            ) by {
                crate::gpu::lemma_index_of_props(mid_gpu.objects@, oid);
                match gcmd {
                    GlCmd::GenBuffer { .. } => {
                        crate::gpu::lemma_index_of_push(mid_gpu.objects@, fg.last(), oid);
                    },
                    GlCmd::GenTexture { .. } => {
                        crate::gpu::lemma_index_of_push(mid_gpu.objects@, fg.last(), oid);
                    },
                    GlCmd::GenFramebuffer => {
                        crate::gpu::lemma_index_of_push(mid_gpu.objects@, fg.last(), oid);
                    },
                    GlCmd::GenRenderbuffer => {
                        crate::gpu::lemma_index_of_push(mid_gpu.objects@, fg.last(), oid);
                    },
                    GlCmd::CompileShader { .. } => {
                        if fg != mid_gpu.objects@ {
                            crate::gpu::lemma_index_of_push(mid_gpu.objects@, fg.last(), oid);
                        }
                    },
                    GlCmd::LinkProgram { .. } => {
                        if fg != mid_gpu.objects@ {
                            crate::gpu::lemma_index_of_push(mid_gpu.objects@, fg.last(), oid);
                        }
                    },
                    GlCmd::AttachTexture { fbo, texture } => {
                        if spec_has_object(mid_gpu.objects@, fbo) && spec_object_of(
                            mid_gpu.objects@,
                            fbo,
                        ) is Framebuffer {
                            crate::gpu::lemma_index_of_props(mid_gpu.objects@, fbo);
                            crate::gpu::lemma_index_of_update(
                                mid_gpu.objects@,
                                crate::gpu::spec_index_of(mid_gpu.objects@, fbo),
                                GpuObject::Framebuffer { id: fbo, attachment: Some(texture) },
                                oid,
                            );
                            if oid == fbo {
                            }
                        }
                    },
                    GlCmd::DeleteBuffer { id } => {
                        crate::gpu::lemma_delete_preserves(
                            mid_gpu.objects@,
                            mid_gpu.next_id,
                            id,
                            fg,
                            oid,
                        );
                    },
                    GlCmd::DeleteTexture { id } => {
                        crate::gpu::lemma_delete_preserves(
                            mid_gpu.objects@,
                            mid_gpu.next_id,
                            id,
                            fg,
                            oid,
                        );
                    },
                    GlCmd::DeleteShader { id } => {
                        crate::gpu::lemma_delete_preserves(
                            mid_gpu.objects@,
                            mid_gpu.next_id,
                            id,
                            fg,
                            oid,
                        );
                    },
                    GlCmd::DeleteFramebuffer { id } => {
                        crate::gpu::lemma_delete_preserves(
                            mid_gpu.objects@,
                            mid_gpu.next_id,
                            id,
                            fg,
                            oid,
                        );
                    },
                    GlCmd::DeleteRenderbuffer { id } => {
                        crate::gpu::lemma_delete_preserves(
                            mid_gpu.objects@,
                            mid_gpu.next_id,
                            id,
                            fg,
                            oid,
                        );
                    },
                    _ => {},
                }
            }
            // Only AttachTexture rewrites an object in place; the clause
            // above says nothing of the attached framebuffer, so handle it.
            match gcmd {
                GlCmd::AttachTexture { fbo, texture } => {
                    if spec_has_object(mid_gpu.objects@, fbo) && spec_object_of(
                        mid_gpu.objects@,
                        fbo,
                    ) is Framebuffer {
                        crate::gpu::lemma_index_of_props(mid_gpu.objects@, fbo);
                        crate::gpu::lemma_index_of_update(
                            mid_gpu.objects@,
                            crate::gpu::spec_index_of(mid_gpu.objects@, fbo),
                            GpuObject::Framebuffer { id: fbo, attachment: Some(texture) },
                            fbo,
                        );
                    }
                },
                _ => {},
            }
            // Live handles: what they name was in the drained table and is
            // never deleted by the command, so it survives with its object.
            assert forall|oid: u32|
                pre.spec_live(oid) && !(gcmd matches GlCmd::AttachTexture { fbo, .. } && fbo
                    == oid) implies spec_has_object(fg, oid) && spec_object_of(fg, oid)
                == spec_object_of(og, oid) by {
                lemma_reg_index_props(pre.registry@, oid);
            }
            // A freshly allocated name was never live nor retired.
            if pre.spec_live(pre.context.gpu.next_id) {
                lemma_reg_index_props(pre.registry@, pre.context.gpu.next_id);
                crate::gpu::lemma_index_of_props(og, pre.context.gpu.next_id);
                assert(false);
            }
            lemma_count_of_zero(pre.retired@, pre.context.gpu.next_id);
            // The linker sees through the drain: same shaders, same tables.
            match gcmd {
                GlCmd::LinkProgram { shaders } => {
                    if forall|i: int|
                        0 <= i < shaders@.len() ==> pre.spec_live(#[trigger] shaders@[i])
                            && spec_object_of(og, shaders@[i]) is Shader {
                        assert forall|i: int| 0 <= i < shaders@.len() implies spec_has_object(
                            og,
                            #[trigger] shaders@[i],
                        ) && spec_has_object(mid_gpu.objects@, shaders@[i]) && spec_object_of(
                            og,
                            shaders@[i],
                        ) == spec_object_of(mid_gpu.objects@, shaders@[i]) by {
                            lemma_reg_index_props(pre.registry@, shaders@[i]);
                        }
                        crate::gpu::lemma_link_decls_same(
                            og,
                            mid_gpu.objects@,
                            shaders@,
                            crate::glsl::spec_keyword_uniform(),
                        );
                        crate::gpu::lemma_link_decls_same(
                            og,
                            mid_gpu.objects@,
                            shaders@,
                            crate::glsl::spec_keyword_attribute(),
                        );
                        assert(crate::gpu::spec_all_shaders(mid_gpu.objects@, shaders@));
                    }
                },
                _ => {},
            }
            match gcmd {
                GlCmd::Draw(params) => {
                    if pre.spec_live(params.program) && spec_object_of(
                        og,
                        params.program,
                    ) is Program {
                        lemma_reg_index_props(pre.registry@, params.program);
                    }
                },
                _ => {},
            }
            // Gen commands: the new object is found at the fresh name.
            if crate::gpu::spec_cmd_allocates(gcmd) && fg.len() == mid_gpu.objects@.len() + 1 {
                crate::gpu::lemma_index_of_push(mid_gpu.objects@, fg.last(), mid_gpu.next_id);
                crate::gpu::lemma_index_of_props(mid_gpu.objects@, mid_gpu.next_id);
            }
            // The registry invariant survives: live handles still name
            // objects, and nothing pending awaits deletion.
            assert forall|i: int| 0 <= i < self.registry@.len() implies spec_has_object(
                fg,
                (#[trigger] self.registry@[i]).id,
            ) by {
                let oid = self.registry@[i].id;
                assert(pre.spec_live(oid)) by {
                    lemma_reg_index_skip(pre.registry@, oid, i as int);
                    assert(pre.registry@.skip(i as int)[0] == pre.registry@[i]);
                    lemma_reg_index_props(pre.registry@.skip(i as int), oid);
                    lemma_reg_index_props(pre.registry@, oid);
                }
            }
        }
        res
    }
}

/// The declarations a linker reflects from a list of sources, in order.
pub open spec fn spec_sources_decls(srcs: Seq<Seq<u8>>, keyword: Seq<u8>) -> Seq<
    (Seq<u8>, gl::GLenum),
>
    decreases srcs.len(),
{
    if srcs.len() == 0 {
        Seq::empty()
    } else {
        spec_sources_decls(srcs.drop_last(), keyword) + crate::glsl::spec_reflect(
            srcs.last(),
            keyword,
        )
    }
}

/// Reflecting shader objects that hold the given sources reflects the
/// sources.
pub proof fn lemma_link_decls_as_sources(
    objects: Seq<GpuObject>,
    ids: Seq<u32>,
    srcs: Seq<Seq<u8>>,
    keyword: Seq<u8>,
)
    requires
        ids.len() == srcs.len(),
        forall|i: int|
            0 <= i < ids.len() ==> spec_has_object(objects, #[trigger] ids[i])
                && crate::gpu::spec_shader_source(objects, ids[i]) == srcs[i],
    ensures
        crate::gpu::spec_link_decls(objects, ids, keyword) == spec_sources_decls(srcs, keyword),
    decreases ids.len(),
{
    if ids.len() > 0 {
        assert forall|i: int| 0 <= i < ids.drop_last().len() implies spec_has_object(
            objects,
            #[trigger] ids.drop_last()[i],
        ) && crate::gpu::spec_shader_source(objects, ids.drop_last()[i])
            == srcs.drop_last()[i] by {
            assert(ids.drop_last()[i] == ids[i]);
            assert(srcs.drop_last()[i] == srcs[i]);
        }
        lemma_link_decls_as_sources(objects, ids.drop_last(), srcs.drop_last(), keyword);
        assert(ids.last() == ids[ids.len() - 1]);
        assert(srcs.last() == srcs[srcs.len() - 1]);
    }
}

/// A list of sources never yields more declarations than it has bytes in
/// all.
pub proof fn lemma_sources_decls_len_le(srcs: Seq<Seq<u8>>, keyword: Seq<u8>, bound: int)
    requires
        forall|i: int| 0 <= i < srcs.len() ==> (#[trigger] srcs[i]).len() <= bound,
        bound >= 0,
    ensures
        spec_sources_decls(srcs, keyword).len() <= srcs.len() * bound,
    decreases srcs.len(),
{
    if srcs.len() > 0 {
        assert forall|i: int| 0 <= i < srcs.drop_last().len() implies (
        #[trigger] srcs.drop_last()[i]).len() <= bound by {
            assert(srcs.drop_last()[i] == srcs[i]);
        }
        lemma_sources_decls_len_le(srcs.drop_last(), keyword, bound);
        crate::glsl::lemma_reflect_len_le(srcs.last(), keyword);
        assert(srcs.len() * bound == (srcs.len() - 1) * bound + bound) by (nonlinear_arith);
    } else {
        assert(srcs.len() * bound == 0) by (nonlinear_arith)
            requires
                srcs.len() == 0,
        ;
    }
}

/// Copies a list of object names.
fn copy_ids(v: &Vec<u32>) -> (r: Vec<u32>)
    ensures
        r@ == v@,
{
    let n = v.len();
    let mut r: Vec<u32> = Vec::new();
    let mut i: usize = 0;
    while i < n
        invariant
            n == v@.len(),
            i <= n,
            r@ == v@.take(i as int),
        decreases n - i,
    {
        r.push(v[i]);
        proof {
            assert(r@ =~= v@.take(i + 1));
        }
        i = i + 1;
    }
    proof {
        assert(v@.take(n as int) =~= v@);
    }
    r
}

impl Display {
    /// Builds an individual shader stage: submits one compilation command
    /// and registers the created shader object with one reference.  An
    /// empty source fails with the compiler's diagnostic text.
    fn build_shader(&mut self, shader_type: gl::GLenum, source_code: &str) -> (r: Result<
        u32,
        String,
    >)
        requires
            old(self).wf(),
            old(self).context.state is Running,
            old(self).context.next_ticket < u64::MAX,
            old(self).context.gpu.next_id < u32::MAX,
        ensures
            final(self).wf(),
            final(self).context.state is Running,
            final(self).context.next_ticket == old(self).context.next_ticket + 1,
            (r is Err) <==> source_code.spec_bytes().len() == 0,
            r matches Err(m) ==> m@ == "shader compilation failed: empty source"@ && final(self).context.gpu.next_id == old(self).context.gpu.next_id && final(self).registry == old(self).registry && final(self).retired == old(self).retired && final(self).delete_log == old(self).delete_log,
            r matches Ok(id) ==> {
                &&& id == old(self).context.gpu.next_id
                &&& final(self).context.gpu.next_id == old(self).context.gpu.next_id + 1
                &&& final(self).spec_live(id)
                &&& final(self).spec_count(id) == 1
                &&& final(self).spec_kind(id) == ResourceKind::Shader
                &&& !old(self).spec_live(id)
                &&& spec_has_object(final(self).context.gpu.objects@, id)
                &&& spec_object_of(final(self).context.gpu.objects@, id)
                    matches GpuObject::Shader { id: sid, stage, source } && sid == id && stage
                    == shader_type && source@ == source_code.spec_bytes()
                &&& final(self).retired == old(self).retired
                &&& final(self).delete_log == old(self).delete_log
            },
            forall|oid: u32|
                #[trigger] old(self).spec_live(oid) ==> final(self).spec_live(oid) && final(self).spec_count(oid) == old(self).spec_count(oid) && final(self).spec_kind(oid) == old(self).spec_kind(oid),
            forall|oid: u32|
                #[trigger] old(self).spec_live(oid) ==> spec_has_object(
                    final(self).context.gpu.objects@,
                    oid,
                ) && spec_object_of(final(self).context.gpu.objects@, oid) == spec_object_of(
                    old(self).context.gpu.objects@,
                    oid,
                ),
    {
        let source = crate::bytes::copy_bytes(source_code.as_bytes());
        let res = self.submit(GlCmd::CompileShader { stage: shader_type, source });
        match res {
            CmdResult::ShaderCompiled(id) => {
                let ghost mid = *self;
                self.insert_resource(id, ResourceKind::Shader);
                proof {
                    assert forall|oid: u32| old(self).spec_live(oid) implies self.spec_live(oid)
                        && self.spec_count(oid) == old(self).spec_count(oid) && self.spec_kind(
                        oid,
                    ) == old(self).spec_kind(oid) by {
                        assert(mid.spec_live(oid));
                        assert(oid != id);
                        assert(self.spec_live(oid));
                    }
                }
                Ok(id)
            },
            CmdResult::ShaderError(m) => Err(m),
            _ => {
                proof {
                    assert(false);
                }
                Err(String::new())
            },
        }
    }

    /// Builds a geometry shader stage.
    fn build_geometry_shader(&mut self, source_code: &str) -> (r: Result<u32, String>)
        requires
            old(self).wf(),
            old(self).context.state is Running,
            old(self).context.next_ticket < u64::MAX,
            old(self).context.gpu.next_id < u32::MAX,
        ensures
            final(self).wf(),
            final(self).context.state is Running,
            final(self).context.next_ticket == old(self).context.next_ticket + 1,
            (r is Err) <==> source_code.spec_bytes().len() == 0,
            r matches Err(m) ==> m@ == "shader compilation failed: empty source"@ && final(self).context.gpu.next_id == old(self).context.gpu.next_id && final(self).registry == old(self).registry && final(self).retired == old(self).retired && final(self).delete_log == old(self).delete_log,
            r matches Ok(id) ==> {
                &&& id == old(self).context.gpu.next_id
                &&& final(self).context.gpu.next_id == old(self).context.gpu.next_id + 1
                &&& final(self).spec_live(id)
                &&& final(self).spec_count(id) == 1
                &&& final(self).spec_kind(id) == ResourceKind::Shader
                &&& !old(self).spec_live(id)
                &&& spec_has_object(final(self).context.gpu.objects@, id)
                &&& spec_object_of(final(self).context.gpu.objects@, id)
                    matches GpuObject::Shader { id: sid, stage, source } && sid == id && stage
                    == gl::GEOMETRY_SHADER && source@ == source_code.spec_bytes()
                &&& final(self).retired == old(self).retired
                &&& final(self).delete_log == old(self).delete_log
            },
            forall|oid: u32|
                #[trigger] old(self).spec_live(oid) ==> final(self).spec_live(oid) && final(self).spec_count(oid) == old(self).spec_count(oid) && final(self).spec_kind(oid) == old(self).spec_kind(oid),
            forall|oid: u32|
                #[trigger] old(self).spec_live(oid) ==> spec_has_object(
                    final(self).context.gpu.objects@,
                    oid,
                ) && spec_object_of(final(self).context.gpu.objects@, oid) == spec_object_of(
                    old(self).context.gpu.objects@,
                    oid,
                ),
    {
        self.build_shader(gl::GEOMETRY_SHADER, source_code)
    }
}

impl Display {
    /// Builds a program from vertex, fragment and optional geometry shader
    /// sources: compiles each stage, links them, and reflects the program's
    /// uniforms.  Each stage that fails to compile reports the compiler's
    /// diagnostic text; stages already compiled are released again on the
    /// way out.
    #[verifier::rlimit(100)]
    pub fn build_program(
        &mut self,
        vertex_shader: &str,
        fragment_shader: &str,
        geometry_shader: Option<&str>,
    ) -> (r: Result<crate::program::Program, String>)
        requires
            old(self).wf(),
            old(self).context.state is Running,
            old(self).context.next_ticket + 8 <= u64::MAX,
            old(self).context.gpu.next_id + 4 <= u32::MAX,
            vertex_shader.spec_bytes().len() <= 0x2000_0000,
            fragment_shader.spec_bytes().len() <= 0x2000_0000,
            geometry_shader matches Some(g) ==> g.spec_bytes().len() <= 0x2000_0000,
        ensures
            final(self).wf(),
            final(self).context.state is Running,
            (r is Ok) <==> (vertex_shader.spec_bytes().len() > 0 && fragment_shader.spec_bytes().len()
                > 0 && (geometry_shader matches Some(g) ==> g.spec_bytes().len() > 0)),
            r matches Err(m) ==> m@ == "shader compilation failed: empty source"@,
            r matches Ok(p) ==> {
                &&& crate::gpu::spec_is_uniform_table(
                    p.program.uniforms@,
                    spec_sources_decls(
                        crate::program::spec_source_list(
                            vertex_shader.spec_bytes(),
                            fragment_shader.spec_bytes(),
                            match geometry_shader {
                                Some(g) => Some(g.spec_bytes()),
                                None => None,
                            },
                        ),
                        crate::glsl::spec_keyword_uniform(),
                    ),
                )
                &&& spec_has_object(final(self).context.gpu.objects@, p.program.id)
                &&& spec_object_of(final(self).context.gpu.objects@, p.program.id)
                    matches GpuObject::Program { id: pid, attributes: at } && pid == p.program.id
                    && crate::gpu::spec_is_attr_table(
                    at@,
                    spec_sources_decls(
                        crate::program::spec_source_list(
                            vertex_shader.spec_bytes(),
                            fragment_shader.spec_bytes(),
                            match geometry_shader {
                                Some(g) => Some(g.spec_bytes()),
                                None => None,
                            },
                        ),
                        crate::glsl::spec_keyword_attribute(),
                    ),
                )
                &&& forall|i: int|
                    0 <= i < p.program.shaders@.len() ==> final(self).spec_live(
                        #[trigger] p.program.shaders@[i],
                    ) && final(self).spec_kind(p.program.shaders@[i]) == ResourceKind::Shader
                &&& !final(self).spec_live(p.program.id)
            },
            forall|oid: u32|
                #[trigger] old(self).spec_live(oid) ==> final(self).spec_live(oid) && final(self).spec_count(oid) == old(self).spec_count(oid) && final(self).spec_kind(oid) == old(self).spec_kind(oid),
            forall|oid: u32|
                #[trigger] old(self).spec_live(oid) ==> spec_has_object(
                    final(self).context.gpu.objects@,
                    oid,
                ) && spec_object_of(final(self).context.gpu.objects@, oid) == spec_object_of(
                    old(self).context.gpu.objects@,
                    oid,
                ),
    {
        let mut shader_ids: Vec<u32> = Vec::new();
        let vs = match self.build_shader(gl::VERTEX_SHADER, vertex_shader) {
            Ok(id) => id,
            Err(m) => {
                return Err(m);
            },
        };
        shader_ids.push(vs);
        let ghost d_after_vs = *self;
        match geometry_shader {
            Some(gs_src) => {
                match self.build_geometry_shader(gs_src) {
                    Ok(id) => {
                        shader_ids.push(id);
                    },
                    Err(m) => {
                        let ghost d1 = *self;
                        self.release_resource(vs);
                        proof {
                            assert forall|oid: u32| old(self).spec_live(oid) implies
                                self.spec_live(oid) && self.spec_count(oid) == old(self).spec_count(oid) && self.spec_kind(oid) == old(self).spec_kind(
                                oid,
                            ) by {
                                assert(oid != vs);
                                assert(d1.spec_live(oid));
                            }
                        }
                        return Err(m);
                    },
                }
            },
            None => {},
        }
        let ghost d_after_gs = *self;
        let fs = match self.build_shader(gl::FRAGMENT_SHADER, fragment_shader) {
            Ok(id) => id,
            Err(m) => {
                proof {
                    assert forall|j: int| 0 <= j < shader_ids@.len() implies !old(self).spec_live(#[trigger] shader_ids@[j]) by {
                        if old(self).spec_live(shader_ids@[j]) {
                            lemma_reg_index_props(old(self).registry@, shader_ids@[j]);
                            crate::gpu::lemma_index_of_props(
                                old(self).context.gpu.objects@,
                                shader_ids@[j],
                            );
                        }
                    }
                }
                let mut k: usize = 0;
                let n = shader_ids.len();
                while k < n
                    invariant
                        n == shader_ids@.len(),
                        k <= n,
                        self.wf(),
                        self.context.state is Running,
                        self.context.next_ticket + (n - k) <= u64::MAX,
                        forall|j: int| k <= j < n ==> self.spec_live(#[trigger] shader_ids@[j]),
                        forall|j1: int, j2: int|
                            0 <= j1 < j2 < n ==> shader_ids@[j1] != shader_ids@[j2],
                        forall|oid: u32|
                            #[trigger] old(self).spec_live(oid) ==> self.spec_live(oid)
                                && self.spec_count(oid) == old(self).spec_count(oid)
                                && self.spec_kind(oid) == old(self).spec_kind(oid),
                        forall|oid: u32|
                            #[trigger] old(self).spec_live(oid) ==> spec_has_object(
                                self.context.gpu.objects@,
                                oid,
                            ) && spec_object_of(self.context.gpu.objects@, oid) == spec_object_of(
                                old(self).context.gpu.objects@,
                                oid,
                            ),
                        forall|j: int|
                            k <= j < n ==> !old(self).spec_live(#[trigger] shader_ids@[j]),
                    decreases n - k,
                {
                    self.release_resource(shader_ids[k]);
                    k = k + 1;
                }
                return Err(m);
            },
        };
        shader_ids.push(fs);
        let ghost d_before_link = *self;
        let ghost srcs = crate::program::spec_source_list(
            vertex_shader.spec_bytes(),
            fragment_shader.spec_bytes(),
            match geometry_shader {
                Some(g) => Some(g.spec_bytes()),
                None => None,
            },
        );
        proof {
            assert(shader_ids@.len() == srcs.len());
            assert forall|i: int| 0 <= i < shader_ids@.len() implies d_before_link.spec_live(
                #[trigger] shader_ids@[i],
            ) && spec_object_of(
                d_before_link.context.gpu.objects@,
                shader_ids@[i],
            ) is Shader && crate::gpu::spec_shader_source(
                d_before_link.context.gpu.objects@,
                shader_ids@[i],
            ) == srcs[i] && spec_has_object(d_before_link.context.gpu.objects@, shader_ids@[i]) by {
                lemma_reg_index_props(d_before_link.registry@, shader_ids@[i]);
            }
            lemma_link_decls_as_sources(
                d_before_link.context.gpu.objects@,
                shader_ids@,
                srcs,
                crate::glsl::spec_keyword_uniform(),
            );
            lemma_link_decls_as_sources(
                d_before_link.context.gpu.objects@,
                shader_ids@,
                srcs,
                crate::glsl::spec_keyword_attribute(),
            );
            lemma_sources_decls_len_le(srcs, crate::glsl::spec_keyword_uniform(), 0x2000_0000);
            lemma_sources_decls_len_le(srcs, crate::glsl::spec_keyword_attribute(), 0x2000_0000);
            assert(srcs.len() * 0x2000_0000 <= 3 * 0x2000_0000) by (nonlinear_arith)
                requires
                    srcs.len() <= 3,
            ;
        }
        let link_ids = copy_ids(&shader_ids);
        let res = self.submit(GlCmd::LinkProgram { shaders: link_ids });
        match res {
            CmdResult::ProgramLinked { id, uniforms } => {
                Ok(
                    crate::program::Program {
                        program: crate::program::ProgramImpl { id, shaders: shader_ids, uniforms },
                    },
                )
            },
            _ => {
                proof {
                    assert(false);
                }
                Err(String::new())
            },
        }
    }
}

impl Display {
    /// Enqueues a fire-and-forget command: it runs at the next frame, in
    /// submission order.
    pub(crate) fn enqueue_async(&mut self, cmd: GlCmd)
        requires
            old(self).wf(),
            old(self).context.next_ticket < u64::MAX,
            crate::gpu::spec_cmd_async_ok(cmd),
            forall|oid: u32| old(self).spec_live(oid) ==> !spec_cmd_deletes(cmd, oid),
        ensures
            final(self).wf(),
            final(self).context.pending@ == old(self).context.pending@.push(
                Message::Execute { ticket: old(self).context.next_ticket, cmd },
            ),
            final(self).context.next_ticket == old(self).context.next_ticket + 1,
            final(self).context.gpu == old(self).context.gpu,
            final(self).context.state == old(self).context.state,
            final(self).context.events == old(self).context.events,
            final(self).registry == old(self).registry,
            final(self).retired == old(self).retired,
            final(self).delete_log == old(self).delete_log,
    {
        let ghost gcmd = cmd;
        self.context.exec(cmd);
        proof {
            let newmsg = Message::Execute { ticket: old(self).context.next_ticket, cmd: gcmd };
            let newpending = old(self).context.pending@.push(newmsg);
            assert(spec_pending_async_ok(newpending)) by {
                assert forall|i: int|
                    0 <= i < newpending.len() implies ((#[trigger] newpending[i])
                    matches Message::Execute { cmd, .. } ==> crate::gpu::spec_cmd_async_ok(
                    cmd,
                )) by {
                    if i < old(self).context.pending@.len() {
                        assert(newpending[i] == old(self).context.pending@[i]);
                    } else {
                        assert(newpending[i] == newmsg);
                    }
                }
            }
            assert forall|j: int| 0 <= j < self.registry@.len() implies !spec_pending_deletes(
                newpending,
                (#[trigger] self.registry@[j]).id,
            ) by {
                let oid = self.registry@[j].id;
                assert(old(self).spec_live(oid)) by {
                    lemma_reg_index_skip(old(self).registry@, oid, j);
                    assert(old(self).registry@.skip(j)[0] == old(self).registry@[j]);
                    lemma_reg_index_props(old(self).registry@.skip(j), oid);
                    lemma_reg_index_props(old(self).registry@, oid);
                }
                if spec_pending_deletes(newpending, oid) {
                    let i = choose|i: int|
                        0 <= i < newpending.len() && ((#[trigger] newpending[i])
                            matches Message::Execute { cmd, .. } && spec_cmd_deletes(cmd, oid));
                    if i < old(self).context.pending@.len() {
                        assert(old(self).context.pending@[i] == newpending[i]);
                    } else {
                        assert(newpending[i] == newmsg);
                    }
                }
            }
        }
    }

    /// Enqueues the frame-end marker: everything submitted before it is
    /// applied before the buffer swap it announces.  Fire and forget.
    pub(crate) fn enqueue_end_frame(&mut self)
        requires
            old(self).wf(),
        ensures
            final(self).wf(),
            final(self).context.pending@ == old(self).context.pending@.push(Message::EndFrame),
            final(self).context.next_ticket == old(self).context.next_ticket,
            final(self).context.gpu == old(self).context.gpu,
            final(self).context.state == old(self).context.state,
            final(self).context.events == old(self).context.events,
            final(self).registry == old(self).registry,
            final(self).retired == old(self).retired,
            final(self).delete_log == old(self).delete_log,
    {
        self.context.swap_buffers();
        proof {
            let newpending = old(self).context.pending@.push(Message::EndFrame);
            assert(spec_pending_async_ok(newpending)) by {
                assert forall|i: int|
                    0 <= i < newpending.len() implies ((#[trigger] newpending[i])
                    matches Message::Execute { cmd, .. } ==> crate::gpu::spec_cmd_async_ok(
                    cmd,
                )) by {
                    if i < old(self).context.pending@.len() {
                        assert(newpending[i] == old(self).context.pending@[i]);
                    } else {
                        assert(newpending[i] == Message::EndFrame);
                    }
                }
            }
            assert forall|j: int| 0 <= j < self.registry@.len() implies !spec_pending_deletes(
                newpending,
                (#[trigger] self.registry@[j]).id,
            ) by {
                let oid = self.registry@[j].id;
                assert(old(self).spec_live(oid)) by {
                    lemma_reg_index_skip(old(self).registry@, oid, j);
                    assert(old(self).registry@.skip(j)[0] == old(self).registry@[j]);
                    lemma_reg_index_props(old(self).registry@.skip(j), oid);
                    lemma_reg_index_props(old(self).registry@, oid);
                }
                if spec_pending_deletes(newpending, oid) {
                    let i = choose|i: int|
                        0 <= i < newpending.len() && ((#[trigger] newpending[i])
                            matches Message::Execute { cmd, .. } && spec_cmd_deletes(cmd, oid));
                    if i < old(self).context.pending@.len() {
                        assert(old(self).context.pending@[i] == newpending[i]);
                    } else {
                        assert(newpending[i] == Message::EndFrame);
                    }
                }
            }
        }
    }

    /// One iteration of the consumer's frame loop, on this display's
    /// context; see [`crate::context::Context::run_frame`].
    pub fn run_frame(
        &mut self,
        window_size: Option<(u32, u32)>,
        os_events: Vec<Event>,
    ) -> (r: crate::context::FrameOutcome)
        requires
            old(self).wf(),
            old(self).context.next_frame_ns + crate::context::FRAME_PERIOD_NS <= u64::MAX,
        ensures
            final(self).wf(),
            final(self).registry == old(self).registry,
            final(self).retired == old(self).retired,
            final(self).delete_log == old(self).delete_log,
            r is Swapped ==> final(self).context.gpu.frames@.len() == old(self).context.gpu.frames@.len() + 1 && final(self).context.gpu.frames@.drop_last() == old(self).context.gpu.frames@ && final(self).context.events@ == old(self).context.events@
                + os_events@ && final(self).context.next_frame_ns == old(self).context.next_frame_ns + crate::context::FRAME_PERIOD_NS,
            r is Swapped ==> final(self).context.gpu.frames@.last().draws == old(self).context.gpu.current_draws,
            r is Blocked ==> final(self).context.gpu.frames == old(self).context.gpu.frames
                && final(self).context.events == old(self).context.events && final(self).context.next_frame_ns == old(self).context.next_frame_ns,
            old(self).context.state is Stopped ==> (r is Stopped && *final(self) == *old(self)),
            old(self).context.state is Running ==> ((r is Swapped) <==> spec_has_end(
                old(self).context.pending@,
            )),
            old(self).context.state is Running ==> ((r is Blocked) <==> !spec_has_end(
                old(self).context.pending@,
            )),
            r is Swapped ==> final(self).context.pending@ == old(self).context.pending@.skip(
                crate::context::spec_first_end(old(self).context.pending@) + 1,
            ) && final(self).context.state == old(self).context.state,
    {
        let ghost pre = *self;
        let r = self.context.run_frame(window_size, os_events);
        proof {
            // The consumer only consumes: what a live handle names is never
            // queued for deletion, so it survives the frame run, and the
            // surviving queue is a suffix that deletes no more than before.
            assert forall|j: int| 0 <= j < self.registry@.len() implies spec_has_object(
                self.context.gpu.objects@,
                (#[trigger] self.registry@[j]).id,
            ) && !spec_pending_deletes(self.context.pending@, self.registry@[j].id) by {
                let oid = self.registry@[j].id;
                assert(pre.spec_live(oid)) by {
                    lemma_reg_index_skip(pre.registry@, oid, j);
                    assert(pre.registry@.skip(j)[0] == pre.registry@[j]);
                    lemma_reg_index_props(pre.registry@.skip(j), oid);
                    lemma_reg_index_props(pre.registry@, oid);
                }
                if pre.context.state is Stopped {
                } else {
                    assert(spec_has_object(pre.context.gpu.objects@, oid));
                    assert(!spec_pending_deletes(pre.context.pending@, oid));
                    if r is Stopped {
                        assert(self.context.pending@.len() == 0);
                    }
                }
            }
            if !(pre.context.state is Stopped) {
                let k = crate::context::spec_first_end(pre.context.pending@);
                assert(spec_pending_async_ok(self.context.pending@)) by {
                    assert forall|i: int|
                        0 <= i < self.context.pending@.len() implies ((
                        #[trigger] self.context.pending@[i]) matches Message::Execute { cmd, .. }
                        ==> crate::gpu::spec_cmd_async_ok(cmd)) by {
                        if r is Swapped {
                            crate::context::lemma_first_end_props(pre.context.pending@);
                            assert(self.context.pending@ == pre.context.pending@.skip(k + 1));
                            assert(self.context.pending@[i] == pre.context.pending@.skip(k + 1)[i]);
                            assert(pre.context.pending@.skip(k + 1)[i] == pre.context.pending@[k + 1
                                + i]);
                        } else {
                            assert(self.context.pending@.len() == 0);
                        }
                    }
                }
            }
        }
        r
    }
}

} // verus!

//! The render-graph builder: accumulates resource declarations and node
//! additions replayed from a front end into an internally consistent graph.
//!
//! Every node argument must reference a previously declared resource, its
//! subresource range must lie within that resource's extent, and its view
//! format must be compatible with the declared format. Violations are
//! rejected fail-fast with the error of the first offending argument.

use vstd::prelude::*;

use crate::access::AccessAttr;
use crate::format::{Format, FMT_UNKNOWN};
use crate::resource::{
    range_within_desc, resource_desc_consistent, resource_desc_dims_valid,
    resource_declared_format, ResourceDesc, ResourceType, SubresourceRange,
};
use crate::result::RpsError;

verus! {

/// Flags of a node declaration.
pub type NodeDeclFlags = u32;

pub const NODE_DECL_FLAG_NONE: NodeDeclFlags = 0;
pub const NODE_DECL_GRAPHICS: NodeDeclFlags = 1u32 << 0;
pub const NODE_DECL_COMPUTE: NodeDeclFlags = 1u32 << 1;
pub const NODE_DECL_COPY: NodeDeclFlags = 1u32 << 2;
pub const NODE_DECL_PREFER_RENDER_PASS: NodeDeclFlags = 1u32 << 3;
pub const NODE_DECL_PREFER_ASYNC: NodeDeclFlags = 1u32 << 4;

/// One resource argument of a node: which resource, which subresource
/// range, how it is accessed, and through which view format.
#[derive(Clone, Copy, Debug, PartialEq, Eq, Structural)]
pub struct ResourceAccessInfo {
    pub resource_id: u32,
    pub range: SubresourceRange,
    pub access: AccessAttr,
    pub view_format: Format,
}

/// A resource declaration held by the builder.
#[derive(Clone, Copy, Debug, PartialEq, Eq, Structural)]
pub struct ResourceDecl {
    pub desc: ResourceDesc,
    /// Caller-supplied resources get no allocation and live for the whole
    /// schedule; transient ones are placed by the allocator.
    pub is_external: bool,
}

/// One added node: its declaration flags, a caller tag, and the resource
/// arguments it touches.
#[derive(Debug)]
pub struct NodeInfo {
    pub flags: NodeDeclFlags,
    pub user_tag: u32,
    pub accesses: Vec<ResourceAccessInfo>,
}

/// Whether a view format may be bound to a resource declared with the
/// given format. An unknown view inherits the declared format; an unknown
/// declared format (a buffer, or an image to be inferred) accepts any view.
pub open spec fn format_compatible(declared: Format, view: Format) -> bool {
    view.0 == FMT_UNKNOWN || declared.0 == FMT_UNKNOWN || view == declared
}

/// The graph under construction.
pub struct RenderGraphBuilder {
    pub resources: Vec<ResourceDecl>,
    pub nodes: Vec<NodeInfo>,
}

/// The violation one resource argument would commit against the declared
/// resources, or `None` when it is valid; checks are ordered, so the
/// identity is tested before the range and the range before the format.
pub open spec fn access_error(
    resources: Seq<ResourceDecl>,
    a: ResourceAccessInfo,
) -> Option<RpsError> {
    if a.resource_id >= resources.len() {
        Some(RpsError::InvalidProgram)
    } else if !range_within_desc(resources[a.resource_id as int].desc, a.range) {
        Some(RpsError::ValidationFailed)
    } else if !format_compatible(
        resource_declared_format(resources[a.resource_id as int].desc),
        a.view_format,
    ) {
        Some(RpsError::TypeMismatch)
    } else {
        None
    }
}

/// Whether one resource argument is valid against the declared resources.
pub open spec fn access_valid(resources: Seq<ResourceDecl>, a: ResourceAccessInfo) -> bool {
    access_error(resources, a) is None
}

/// Whether every argument of the node is valid.
pub open spec fn node_wf(resources: Seq<ResourceDecl>, n: NodeInfo) -> bool {
    forall|k: int| 0 <= k < n.accesses@.len() ==> access_valid(resources, #[trigger] n.accesses@[k])
}

/// Whether one resource declaration is acceptable.
pub open spec fn resource_decl_valid(d: ResourceDecl) -> bool {
    resource_desc_consistent(d.desc) && resource_desc_dims_valid(d.desc)
}

/// The builder invariant: every declaration is acceptable and every node
/// argument references a declared resource through a valid range and view.
pub open spec fn graph_wf(g: RenderGraphBuilder) -> bool {
    &&& forall|r: int|
        0 <= r < g.resources@.len() ==> resource_decl_valid(#[trigger] g.resources@[r])
    &&& forall|i: int| 0 <= i < g.nodes@.len() ==> node_wf(g.resources@, #[trigger] g.nodes@[i])
}

/// The violation a resource declaration would commit, or `None`.
pub open spec fn declare_error(desc: ResourceDesc) -> Option<RpsError> {
    if desc.type_ is Unknown {
        Some(RpsError::InvalidProgram)
    } else if !resource_desc_consistent(desc) {
        Some(RpsError::TypeMismatch)
    } else if !resource_desc_dims_valid(desc) {
        Some(RpsError::ValidationFailed)
    } else {
        None
    }
}

/// The first non-unknown view format bound to the resource among the
/// first `k` arguments, or unknown.
pub open spec fn first_view_format_in_accesses(
    s: Seq<ResourceAccessInfo>,
    rid: int,
    k: int,
) -> Format
    decreases k,
{
    if k <= 0 {
        Format(FMT_UNKNOWN)
    } else {
        let prev = first_view_format_in_accesses(s, rid, k - 1);
        if prev.0 != FMT_UNKNOWN {
            prev
        } else if s[k - 1].resource_id == rid && s[k - 1].view_format.0 != FMT_UNKNOWN {
            s[k - 1].view_format
        } else {
            prev
        }
    }
}

/// The first non-unknown view format bound to the resource by the first
/// `p` nodes in program order, or unknown.
pub open spec fn first_view_format_in_nodes(nodes: Seq<NodeInfo>, rid: int, p: int) -> Format
    decreases p,
{
    if p <= 0 {
        Format(FMT_UNKNOWN)
    } else {
        let prev = first_view_format_in_nodes(nodes, rid, p - 1);
        if prev.0 != FMT_UNKNOWN {
            prev
        } else {
            first_view_format_in_accesses(
                nodes[p - 1].accesses@,
                rid,
                nodes[p - 1].accesses@.len() as int,
            )
        }
    }
}

/// The format a resource resolves to: the declared format when explicit,
/// otherwise the format of the first typed view bound to it.
pub open spec fn effective_format(g: RenderGraphBuilder, rid: int) -> Format {
    if resource_declared_format(g.resources@[rid].desc).0 != FMT_UNKNOWN {
        resource_declared_format(g.resources@[rid].desc)
    } else {
        first_view_format_in_nodes(g.nodes@, rid, g.nodes@.len() as int)
    }
}

/// Whether every image resource resolves to a known format, explicitly or
/// through its first typed view.
pub open spec fn formats_determinable(g: RenderGraphBuilder) -> bool {
    forall|rid: int|
        0 <= rid < g.resources@.len() && (#[trigger] g.resources@[rid]).desc.buffer_image is Image
            ==> effective_format(g, rid).0 != FMT_UNKNOWN
}

impl RenderGraphBuilder {
    /// An empty graph: no resources, no nodes.
    pub fn new() -> (g: RenderGraphBuilder)
        ensures
            g.resources@.len() == 0,
            g.nodes@.len() == 0,
            graph_wf(g),
    {
        RenderGraphBuilder { resources: Vec::new(), nodes: Vec::new() }
    }

    /// How many nodes the graph holds.
    pub fn num_nodes(&self) -> (r: usize)
        ensures
            r == self.nodes@.len(),
    {
        self.nodes.len()
    }

    /// How many resources the graph holds.
    pub fn num_resources(&self) -> (r: usize)
        ensures
            r == self.resources@.len(),
    {
        self.resources.len()
    }

    /// The format the resource resolves to: the declared one, or the first
    /// typed view bound to it in program order, or unknown.
    pub fn resource_effective_format(&self, resource_id: u32) -> (r: Format)
        requires
            (resource_id as int) < self.resources@.len(),
        ensures
            r == effective_format(*self, resource_id as int),
    {
        let declared = self.resources[resource_id as usize].desc.declared_format();
        if declared.0 != FMT_UNKNOWN {
            return declared;
        }
        let ghost rid = resource_id as int;
        let mut cur = Format(FMT_UNKNOWN);
        let mut p: usize = 0;
        while p < self.nodes.len()
            invariant
                (resource_id as int) < self.resources@.len(),
                rid == resource_id as int,
                0 <= p <= self.nodes@.len(),
                cur == first_view_format_in_nodes(self.nodes@, rid, p as int),
            decreases self.nodes@.len() - p,
        {
            if cur.0 == FMT_UNKNOWN {
                let node = &self.nodes[p];
                let mut inner = Format(FMT_UNKNOWN);
                let mut k: usize = 0;
                while k < node.accesses.len()
                    invariant
                        rid == resource_id as int,
                        0 <= p < self.nodes@.len(),
                        0 <= k <= node.accesses@.len(),
                        *node == self.nodes@[p as int],
                        inner == first_view_format_in_accesses(node.accesses@, rid, k as int),
                    decreases node.accesses@.len() - k,
                {
                    if inner.0 == FMT_UNKNOWN {
                        let a = &node.accesses[k];
                        if a.resource_id == resource_id && a.view_format.0 != FMT_UNKNOWN {
                            inner = a.view_format;
                        }
                    }
                    k = k + 1;
                }
                cur = inner;
            }
            p = p + 1;
        }
        cur
    }

    fn declare(&mut self, desc: ResourceDesc, is_external: bool) -> (r: Result<u32, RpsError>)
        requires
            graph_wf(*old(self)),
            old(self).resources@.len() < 0xFFFF_FFFF,
        ensures
            graph_wf(*final(self)),
            match r {
                Ok(id) => declare_error(desc) is None && id == old(self).resources@.len() && final(self).resources@ == old(self).resources@.push(ResourceDecl { desc, is_external })
                    && final(self).nodes@ == old(self).nodes@,
                Err(e) => declare_error(desc) == Some(e) && *final(self) == *old(self),
            },
    {
        if matches!(desc.type_, ResourceType::Unknown) {
            return Err(RpsError::InvalidProgram);
        }
        if !desc.consistent() {
            return Err(RpsError::TypeMismatch);
        }
        if !desc.dims_valid() {
            return Err(RpsError::ValidationFailed);
        }
        let id = self.resources.len() as u32;
        self.resources.push(ResourceDecl { desc, is_external });
        proof {
            assert forall|i: int| 0 <= i < self.nodes@.len() implies node_wf(
                self.resources@,
                #[trigger] self.nodes@[i],
            ) by {
                assert(node_wf(old(self).resources@, self.nodes@[i]));
                assert forall|k: int| 0 <= k < self.nodes@[i].accesses@.len() implies access_valid(
                    self.resources@,
                    #[trigger] self.nodes@[i].accesses@[k],
                ) by {
                    assert(access_valid(old(self).resources@, self.nodes@[i].accesses@[k]));
                }
            }
        }
        Ok(id)
    }

    /// Declares a transient resource the engine will place and alias.
    ///
    /// Returns the new resource identity, or the declaration's violation:
    /// `InvalidProgram` for an unknown resource kind, `TypeMismatch` when
    /// the payload contradicts the kind, `ValidationFailed` for an empty
    /// extent or a zero temporal layer count.
    pub fn declare_resource(&mut self, desc: ResourceDesc) -> (r: Result<u32, RpsError>)
        requires
            graph_wf(*old(self)),
            old(self).resources@.len() < 0xFFFF_FFFF,
        ensures
            graph_wf(*final(self)),
            match r {
                Ok(id) => declare_error(desc) is None && id == old(self).resources@.len() && final(self).resources@ == old(self).resources@.push(
                    ResourceDecl { desc, is_external: false },
                ) && final(self).nodes@ == old(self).nodes@,
                Err(e) => declare_error(desc) == Some(e) && *final(self) == *old(self),
            },
    {
        self.declare(desc, false)
    }

    /// Declares a caller-supplied resource: validated like a transient one,
    /// but never allocated, and alive for the whole schedule.
    pub fn declare_external_resource(&mut self, desc: ResourceDesc) -> (r: Result<u32, RpsError>)
        requires
            graph_wf(*old(self)),
            old(self).resources@.len() < 0xFFFF_FFFF,
        ensures
            graph_wf(*final(self)),
            match r {
                Ok(id) => declare_error(desc) is None && id == old(self).resources@.len() && final(self).resources@ == old(self).resources@.push(ResourceDecl { desc, is_external: true })
                    && final(self).nodes@ == old(self).nodes@,
                Err(e) => declare_error(desc) == Some(e) && *final(self) == *old(self),
            },
    {
        self.declare(desc, true)
    }

    /// Adds a node with the given declaration flags, caller tag and
    /// resource arguments.
    ///
    /// Returns the new node identity. Fails with the violation of the first
    /// offending argument: `InvalidProgram` when it references an
    /// undeclared resource, `ValidationFailed` when its range leaves the
    /// resource's extent, `TypeMismatch` when its view format is
    /// incompatible with the declared format. On failure the graph is
    /// unchanged.
    pub fn add_node(
        &mut self,
        flags: NodeDeclFlags,
        user_tag: u32,
        accesses: Vec<ResourceAccessInfo>,
    ) -> (r: Result<u32, RpsError>)
        requires
            graph_wf(*old(self)),
            old(self).nodes@.len() < 0xFFFF_FFFF,
        ensures
            graph_wf(*final(self)),
            match r {
                Ok(id) => {
                    &&& forall|k: int|
                        0 <= k < accesses@.len() ==> access_valid(
                            old(self).resources@,
                            #[trigger] accesses@[k],
                        )
                    &&& id == old(self).nodes@.len()
                    &&& final(self).nodes@ == old(self).nodes@.push(
                        NodeInfo { flags, user_tag, accesses },
                    )
                    &&& final(self).resources@ == old(self).resources@
                },
                Err(e) => {
                    &&& exists|k: int|
                        0 <= k < accesses@.len() && access_error(
                            old(self).resources@,
                            #[trigger] accesses@[k],
                        ) == Some(e) && forall|j: int|
                            0 <= j < k ==> access_valid(old(self).resources@, accesses@[j])
                    &&& *final(self) == *old(self)
                },
            },
    {
        let mut k: usize = 0;
        while k < accesses.len()
            invariant
                0 <= k <= accesses@.len(),
                forall|j: int| 0 <= j < k ==> access_valid(self.resources@, #[trigger] accesses@[j]),
                *self == *old(self),
                graph_wf(*self),
            decreases accesses@.len() - k,
        {
            let a = &accesses[k];
            if a.resource_id as usize >= self.resources.len() {
                return Err(RpsError::InvalidProgram);
            }
            let decl = &self.resources[a.resource_id as usize];
            if !crate::resource::subresource_range_within_desc(&decl.desc, &a.range) {
                return Err(RpsError::ValidationFailed);
            }
            let declared = decl.desc.declared_format();
            if !(a.view_format.0 == FMT_UNKNOWN || declared.0 == FMT_UNKNOWN || a.view_format.0
                == declared.0) {
                return Err(RpsError::TypeMismatch);
            }
            k = k + 1;
        }
        let id = self.nodes.len() as u32;
        self.nodes.push(NodeInfo { flags, user_tag, accesses });
        proof {
            assert forall|i: int| 0 <= i < self.nodes@.len() implies node_wf(
                self.resources@,
                #[trigger] self.nodes@[i],
            ) by {
                if i < old(self).nodes@.len() {
                    assert(node_wf(old(self).resources@, old(self).nodes@[i]));
                    assert(self.nodes@[i] == old(self).nodes@[i]);
                }
            }
        }
        Ok(id)
    }
}

} // verus!

use vstd::prelude::*;
use vstd::string::StringExecFns;

verus! {

#[verifier::external_type_specification]
#[verifier::external_body]
pub struct ExCompositionGraph(wac_graph::CompositionGraph);

#[verifier::external_type_specification]
#[verifier::external_body]
pub struct ExNodeId(wac_graph::NodeId);

#[verifier::external_type_specification]
#[verifier::external_body]
pub struct ExPackageId(wac_graph::PackageId);

#[verifier::external_type_specification]
#[verifier::external_body]
pub struct ExPackage(wac_graph::types::Package);

/// Whether a byte string is a valid, binary-encoded component that
/// `wac_graph::types::Package::from_bytes` accepts; the outcome depends on
/// the bytes alone.
pub uninterp spec fn package_valid(bytes: Seq<u8>) -> bool;

/// The registration key of a package: its name, with `@` and the version
/// appended when one is present.  Component package names cannot contain
/// `@`, so two packages share a key exactly when name and version agree.
pub uninterp spec fn package_key(p: wac_graph::types::Package) -> Seq<char>;

/// The keys of the packages registered in a graph.
pub uninterp spec fn registered_keys(g: wac_graph::CompositionGraph) -> Set<Seq<char>>;

/// Whether a package's types live in a graph's type collection, as
/// `register_package` demands of its argument.
pub uninterp spec fn package_types_registered(
    g: wac_graph::CompositionGraph,
    p: wac_graph::types::Package,
) -> bool;

/// Whether a package identifier is one this graph handed out.
pub uninterp spec fn graph_has_package(
    g: wac_graph::CompositionGraph,
    p: wac_graph::PackageId,
) -> bool;

/// Whether a node identifier is one this graph handed out.
pub uninterp spec fn graph_has_node(g: wac_graph::CompositionGraph, n: wac_graph::NodeId) -> bool;

/// Whether a node is an instantiation node, as `instantiate` creates them.
pub uninterp spec fn graph_node_is_instantiation(
    g: wac_graph::CompositionGraph,
    n: wac_graph::NodeId,
) -> bool;

/// The import names of a binary-encoded component; the component's type,
/// and so this set, is a function of the bytes alone.
pub uninterp spec fn component_imports(bytes: Seq<u8>) -> Set<Seq<char>>;

/// The export names of a binary-encoded component; the component's type,
/// and so this set, is a function of the bytes alone.
pub uninterp spec fn component_exports(bytes: Seq<u8>) -> Set<Seq<char>>;

/// The component binary a package was parsed from, which it stores
/// verbatim.
pub uninterp spec fn package_bytes(p: wac_graph::types::Package) -> Seq<u8>;

/// The component binary of a package registered in a graph.
pub uninterp spec fn graph_package_bytes(
    g: wac_graph::CompositionGraph,
    p: wac_graph::PackageId,
) -> Seq<u8>;

/// The component binary behind a node: for an instantiation node, the
/// binary of the package it instantiates.
pub uninterp spec fn node_bytes(g: wac_graph::CompositionGraph, n: wac_graph::NodeId) -> Seq<u8>;

/// The edges of a graph, as source/target node pairs: alias edges from an
/// instance to its alias nodes, and argument edges from an argument node
/// to the instantiation it satisfies.
pub uninterp spec fn graph_edges(g: wac_graph::CompositionGraph) -> Set<
    (wac_graph::NodeId, wac_graph::NodeId),
>;

/// The public names the graph exports so far.
pub uninterp spec fn graph_export_names(g: wac_graph::CompositionGraph) -> Set<Seq<char>>;

/// Whether a name is a valid, plain component export name; a function of
/// the name alone.
pub uninterp spec fn valid_export_name(name: Seq<char>) -> bool;

/// Whether encoding a graph succeeds; encoding is a function of the graph.
pub uninterp spec fn encode_ok(g: wac_graph::CompositionGraph) -> bool;

/// The bytes a graph encodes to; encoding is a function of the graph.
pub uninterp spec fn encoded_bytes(g: wac_graph::CompositionGraph) -> Seq<u8>;

/// The graph after a mutation keeps every node, package and registered
/// type of the graph before it.
pub open spec fn graph_extends(
    a: wac_graph::CompositionGraph,
    b: wac_graph::CompositionGraph,
) -> bool {
    &&& forall|n: wac_graph::NodeId| graph_has_node(a, n) ==> #[trigger] graph_has_node(b, n)
    &&& forall|n: wac_graph::NodeId|
        graph_node_is_instantiation(a, n) ==> #[trigger] graph_node_is_instantiation(b, n)
    &&& forall|p: wac_graph::PackageId|
        graph_has_package(a, p) ==> #[trigger] graph_has_package(b, p)
    &&& forall|p: wac_graph::types::Package|
        package_types_registered(a, p) ==> #[trigger] package_types_registered(b, p)
    &&& forall|n: wac_graph::NodeId|
        graph_has_node(a, n) ==> #[trigger] node_bytes(b, n) == node_bytes(a, n)
    &&& forall|e: (wac_graph::NodeId, wac_graph::NodeId)|
        graph_edges(a).contains(e) ==> #[trigger] graph_edges(b).contains(e)
}

/// A fatal wiring failure, mirroring the linking-graph errors other than
/// the tolerated unknown-import name.
#[derive(Debug)]
pub enum WireError {
    /// The wiring target is not an instantiation node.
    NotAnInstantiation,
    /// The named argument exists but its type does not match; carries the
    /// argument name.
    TypeMismatch(String),
    /// The named argument was already wired; carries the argument name.
    AlreadyPassed(String),
}

/// The tri-state outcome of wiring one named argument.
#[derive(Debug)]
pub enum WireOutcome {
    /// The argument was wired.
    Wired,
    /// The name is not an import of the package: tolerated, a no-op.
    SkippedUnknownImport,
    /// Any other wiring failure: fatal.
    Failed(WireError),
}

/// A structural or link error that aborts composition.
#[derive(Debug)]
pub enum GraphError {
    /// The binary is not a valid component; carries the parser's message.
    MalformedPackage(String),
    /// A package under the same key was already registered.
    DuplicatePackage,
    /// A fatal wiring failure.
    Wiring(WireError),
    /// An export was looked up on a node that is not an instance.
    NotAnInstance,
    /// A named export is required but the instance does not have it.
    MissingExport(String),
    /// The graph export name is a duplicate or invalid; carries the name.
    Export(String),
    /// Encoding the graph failed; carries the encoder's message.
    Encode(String),
}

/// Relies on `wac_graph::CompositionGraph::new`: a fresh graph holds no
/// nodes, no registered packages, no edges and no exports.
#[verifier::external_body]
fn new_graph() -> (g: wac_graph::CompositionGraph)
    ensures
        registered_keys(g) == Set::<Seq<char>>::empty(),
        graph_edges(g) == Set::<(wac_graph::NodeId, wac_graph::NodeId)>::empty(),
        graph_export_names(g) == Set::<Seq<char>>::empty(),
        forall|n: wac_graph::NodeId| !graph_has_node(g, n),
{
    wac_graph::CompositionGraph::new()
}

/// Relies on `wac_graph::types::Package::from_bytes`: parses and validates
/// a binary-encoded component, succeeding exactly when the bytes are a
/// valid component; the package carries the given name and no version, and
/// its types are populated into the graph's type collection.
#[verifier::external_body]
fn package_from_bytes(
    g: &mut wac_graph::CompositionGraph,
    name: &str,
    bytes: &Vec<u8>,
) -> (r: Result<wac_graph::types::Package, GraphError>)
    ensures
        r is Ok <==> package_valid(bytes@),
        r matches Ok(p) ==> package_key(p) == name@ && package_types_registered(*final(g), p)
            && package_bytes(p) == bytes@,
        r matches Err(e) ==> e matches GraphError::MalformedPackage(_),
        graph_extends(*old(g), *final(g)),
        forall|m: wac_graph::NodeId| graph_has_node(*final(g), m) ==> graph_has_node(*old(g), m),
        registered_keys(*final(g)) == registered_keys(*old(g)),
        graph_edges(*final(g)) == graph_edges(*old(g)),
        graph_export_names(*final(g)) == graph_export_names(*old(g)),
{
    match wac_graph::types::Package::from_bytes(name, None, bytes.clone(), g.types_mut()) {
        Ok(p) => Ok(p),
        Err(e) => Err(GraphError::MalformedPackage(e.to_string())),
    }
}

/// Relies on `wac_graph::CompositionGraph::register_package`: fails exactly
/// when a package under the same key is already registered; the package's
/// types must already live in this graph's type collection.
#[verifier::external_body]
fn register_package(
    g: &mut wac_graph::CompositionGraph,
    p: wac_graph::types::Package,
) -> (r: Result<wac_graph::PackageId, GraphError>)
    requires
        package_types_registered(*old(g), p),
    ensures
        r is Ok <==> !registered_keys(*old(g)).contains(package_key(p)),
        r matches Ok(id) ==> graph_has_package(*final(g), id) && registered_keys(*final(g))
            == registered_keys(*old(g)).insert(package_key(p)) && graph_package_bytes(
            *final(g),
            id,
        ) == package_bytes(p),
        r matches Err(e) ==> e is DuplicatePackage && registered_keys(*final(g))
            == registered_keys(*old(g)),
        graph_extends(*old(g), *final(g)),
        forall|m: wac_graph::NodeId| graph_has_node(*final(g), m) ==> graph_has_node(*old(g), m),
        graph_edges(*final(g)) == graph_edges(*old(g)),
        graph_export_names(*final(g)) == graph_export_names(*old(g)),
{
    match g.register_package(p) {
        Ok(id) => Ok(id),
        Err(_) => Err(GraphError::DuplicatePackage),
    }
}

/// Relies on `wac_graph::CompositionGraph::instantiate`: appends a fresh
/// instantiation node of a registered package, adding no edges, and
/// cannot fail on one.
#[verifier::external_body]
fn instantiate_node(
    g: &mut wac_graph::CompositionGraph,
    p: wac_graph::PackageId,
) -> (r: wac_graph::NodeId)
    requires
        graph_has_package(*old(g), p),
    ensures
        graph_has_node(*final(g), r),
        graph_node_is_instantiation(*final(g), r),
        !graph_has_node(*old(g), r),
        forall|m: wac_graph::NodeId| graph_has_node(*final(g), m) ==> graph_has_node(*old(g), m)
            || m == r,
        node_bytes(*final(g), r) == graph_package_bytes(*old(g), p),
        graph_extends(*old(g), *final(g)),
        registered_keys(*final(g)) == registered_keys(*old(g)),
        graph_edges(*final(g)) == graph_edges(*old(g)),
        graph_export_names(*final(g)) == graph_export_names(*old(g)),
{
    g.instantiate(p)
}

/// Relies on `wac_graph::CompositionGraph::alias_instance_export`: looks a
/// named export up on an instance node, finding one exactly when the
/// instantiated component exports the name; a missing export is the
/// normal `None` outcome, and the only error is a source node that is not
/// an instance — which an instantiation node never is.  A found export is
/// a fresh alias node reached by a new edge from the instance, or the
/// instance's pre-existing alias node, with the edges unchanged.
#[verifier::external_body]
fn alias_export(
    g: &mut wac_graph::CompositionGraph,
    n: wac_graph::NodeId,
    name: &str,
) -> (r: Result<Option<wac_graph::NodeId>, GraphError>)
    requires
        graph_has_node(*old(g), n),
    ensures
        graph_node_is_instantiation(*old(g), n) ==> !(r is Err),
        graph_node_is_instantiation(*old(g), n) ==> ((r matches Ok(Some(_))) <==> component_exports(
            node_bytes(*old(g), n),
        ).contains(name@)),
        graph_node_is_instantiation(*old(g), n) ==> ((r matches Ok(o) && o is None)
            <==> !component_exports(node_bytes(*old(g), n)).contains(name@)),
        r matches Err(e) ==> e is NotAnInstance,
        r matches Ok(o) && o matches Some(id) ==> graph_has_node(*final(g), id),
        r matches Ok(o) && o matches Some(id) ==> ((graph_edges(*final(g)) == graph_edges(*old(g))
            && graph_has_node(*old(g), id)) || (!graph_has_node(*old(g), id) && graph_edges(
            *final(g),
        ) == graph_edges(*old(g)).insert((n, id)))),
        r matches Ok(o) && o matches Some(id) ==> (forall|m: wac_graph::NodeId|
            graph_has_node(*final(g), m) ==> graph_has_node(*old(g), m) || m == id),
        !(r matches Ok(Some(_))) ==> graph_edges(*final(g)) == graph_edges(*old(g))
            && (forall|m: wac_graph::NodeId|
            graph_has_node(*final(g), m) ==> graph_has_node(*old(g), m)),
        graph_extends(*old(g), *final(g)),
        registered_keys(*final(g)) == registered_keys(*old(g)),
        graph_export_names(*final(g)) == graph_export_names(*old(g)),
{
    match g.alias_instance_export(n, name) {
        Ok(id) => Ok(Some(id)),
        Err(wac_graph::AliasError::InstanceMissingExport { .. }) => Ok(None),
        Err(wac_graph::AliasError::NodeIsNotAnInstance { .. }) => Err(GraphError::NotAnInstance),
    }
}

/// Relies on `wac_graph::CompositionGraph::set_instantiation_argument`:
/// wires a named argument of an instantiation node; an argument name that
/// is not among the instantiated component's imports is reported as the
/// distinct skipped outcome — exactly then — while a type mismatch or an
/// already-passed argument is a fatal one, and a target that is not an
/// instantiation never occurs for nodes that `instantiate` created.  A
/// wired argument adds the one edge from the argument to the
/// instantiation; every other outcome leaves the edges unchanged.
#[verifier::external_body]
fn set_argument(
    g: &mut wac_graph::CompositionGraph,
    instantiation: wac_graph::NodeId,
    name: &str,
    argument: wac_graph::NodeId,
) -> (r: WireOutcome)
    requires
        graph_has_node(*old(g), instantiation),
        graph_has_node(*old(g), argument),
    ensures
        graph_node_is_instantiation(*old(g), instantiation) ==> !(r matches WireOutcome::Failed(
            WireError::NotAnInstantiation,
        )),
        graph_node_is_instantiation(*old(g), instantiation) ==> ((r is SkippedUnknownImport)
            <==> !component_imports(node_bytes(*old(g), instantiation)).contains(name@)),
        r is Wired ==> graph_edges(*final(g)) == graph_edges(*old(g)).insert(
            (argument, instantiation),
        ),
        !(r is Wired) ==> graph_edges(*final(g)) == graph_edges(*old(g)),
        forall|m: wac_graph::NodeId| graph_has_node(*final(g), m) ==> graph_has_node(*old(g), m),
        graph_extends(*old(g), *final(g)),
        registered_keys(*final(g)) == registered_keys(*old(g)),
        graph_export_names(*final(g)) == graph_export_names(*old(g)),
{
    match g.set_instantiation_argument(instantiation, name, argument) {
        Ok(()) => WireOutcome::Wired,
        Err(wac_graph::InstantiationArgumentError::InvalidArgumentName { .. }) => {
            WireOutcome::SkippedUnknownImport
        },
        Err(wac_graph::InstantiationArgumentError::NodeIsNotAnInstantiation { .. }) => {
            WireOutcome::Failed(WireError::NotAnInstantiation)
        },
        Err(wac_graph::InstantiationArgumentError::ArgumentTypeMismatch { name, .. }) => {
            WireOutcome::Failed(WireError::TypeMismatch(name))
        },
        Err(wac_graph::InstantiationArgumentError::ArgumentAlreadyPassed { name, .. }) => {
            WireOutcome::Failed(WireError::AlreadyPassed(name))
        },
    }
}

/// Relies on `wac_graph::CompositionGraph::export`: marks a node as a
/// graph export under a public name, succeeding exactly when the name is
/// not exported yet and is a valid plain export name.
#[verifier::external_body]
fn export_node(
    g: &mut wac_graph::CompositionGraph,
    n: wac_graph::NodeId,
    name: &str,
) -> (r: Result<(), GraphError>)
    requires
        graph_has_node(*old(g), n),
    ensures
        r is Ok <==> (!graph_export_names(*old(g)).contains(name@) && valid_export_name(name@)),
        r is Ok ==> graph_export_names(*final(g)) == graph_export_names(*old(g)).insert(name@),
        r matches Err(e) ==> (e matches GraphError::Export(_) && graph_export_names(*final(g))
            == graph_export_names(*old(g))),
        forall|m: wac_graph::NodeId| graph_has_node(*final(g), m) ==> graph_has_node(*old(g), m),
        graph_extends(*old(g), *final(g)),
        registered_keys(*final(g)) == registered_keys(*old(g)),
        graph_edges(*final(g)) == graph_edges(*old(g)),
{
    match g.export(n, name) {
        Ok(()) => Ok(()),
        Err(e) => Err(GraphError::Export(e.to_string())),
    }
}

/// Relies on `wac_graph::CompositionGraph::encode`: serializes the graph
/// into one validated component binary; whether encoding succeeds, and
/// the bytes it yields, are functions of the graph.
#[verifier::external_body]
fn encode_graph(g: &wac_graph::CompositionGraph) -> (r: Result<Vec<u8>, GraphError>)
    ensures
        r is Ok <==> encode_ok(*g),
        r matches Ok(b) ==> b@ == encoded_bytes(*g),
        r matches Err(e) ==> e matches GraphError::Encode(_),
{
    match g.encode(wac_graph::EncodeOptions::default()) {
        Ok(b) => Ok(b),
        Err(e) => Err(GraphError::Encode(e.to_string())),
    }
}

/// The tolerant-linking decision over one wiring outcome: a wired argument
/// and a skipped unknown import proceed, and any other failure is fatal.
pub fn wiring_decision(outcome: WireOutcome) -> (r: Option<WireError>)
    ensures
        r is None <==> !(outcome is Failed),
        r matches Some(e) ==> outcome == WireOutcome::Failed(e),
{
    match outcome {
        WireOutcome::Wired => None,
        WireOutcome::SkippedUnknownImport => None,
        WireOutcome::Failed(e) => Some(e),
    }
}

/// An instantiation of a registered package: a lightweight handle into
/// the composition's exclusively owned graph.
#[derive(Clone, Copy)]
pub struct Instance {
    pub node: wac_graph::NodeId,
}

/// A named output aliased from an instance: a lightweight handle into the
/// composition's exclusively owned graph.
#[derive(Clone, Copy)]
pub struct Export {
    pub node: wac_graph::NodeId,
}

/// The mutable composition graph, exclusively owned by the builder while
/// it is under construction; `encode` turns it into one loadable artifact.
///
/// Beside the graph it carries a ghost rank: each node's creation order.
/// Every edge runs from a lower-ranked node to a higher-ranked one, which
/// is the data-model invariant that the graph is a DAG built in
/// topological order.
pub struct Composition {
    graph: wac_graph::CompositionGraph,
    rank: Ghost<Map<wac_graph::NodeId, int>>,
    next_rank: Ghost<int>,
}

impl Composition {
    /// Whether this composition handed the node out.
    pub closed spec fn owns_node(&self, n: wac_graph::NodeId) -> bool {
        graph_has_node(self.graph, n)
    }

    /// Whether this composition handed the instance out.
    pub closed spec fn owns_instance(&self, i: Instance) -> bool {
        graph_has_node(self.graph, i.node) && graph_node_is_instantiation(self.graph, i.node)
    }

    /// Whether this composition handed the export out.
    pub closed spec fn owns_export(&self, e: Export) -> bool {
        graph_has_node(self.graph, e.node)
    }

    /// The keys of the packages registered so far.
    pub closed spec fn keys(&self) -> Set<Seq<char>> {
        registered_keys(self.graph)
    }

    /// Everything owned before a mutation is still owned after it.
    pub closed spec fn extends(&self, later: &Composition) -> bool {
        graph_extends(self.graph, later.graph)
    }

    /// The bytes this composition encodes to.
    pub closed spec fn encoded(&self) -> Seq<u8> {
        encoded_bytes(self.graph)
    }

    /// Whether encoding this composition succeeds.
    pub closed spec fn encodable(&self) -> bool {
        encode_ok(self.graph)
    }

    /// The public names this composition exports.
    pub closed spec fn export_names(&self) -> Set<Seq<char>> {
        graph_export_names(self.graph)
    }

    /// The wiring and alias edges of the graph, as source/target pairs.
    pub closed spec fn edges(&self) -> Set<(wac_graph::NodeId, wac_graph::NodeId)> {
        graph_edges(self.graph)
    }

    /// The component binary behind a node of this composition.
    pub closed spec fn node_component(&self, n: wac_graph::NodeId) -> Seq<u8> {
        node_bytes(self.graph, n)
    }

    /// The builder's invariant: the ghost rank lists exactly the nodes of
    /// the graph, and every edge runs from a lower-ranked node to a
    /// higher-ranked one — the graph is a DAG in topological order.
    pub closed spec fn wf(&self) -> bool {
        &&& edges_ranked(graph_edges(self.graph), self.rank@)
        &&& forall|n: wac_graph::NodeId| #[trigger]
            self.rank@.dom().contains(n) ==> graph_has_node(self.graph, n) && self.rank@[n]
                < self.next_rank@
        &&& forall|n: wac_graph::NodeId|
            graph_has_node(self.graph, n) ==> #[trigger] self.rank@.dom().contains(n)
    }

    /// A fresh, empty composition.
    pub fn new() -> (r: Composition)
        ensures
            r.keys() == Set::<Seq<char>>::empty(),
            r.edges() == Set::<(wac_graph::NodeId, wac_graph::NodeId)>::empty(),
            r.export_names() == Set::<Seq<char>>::empty(),
            r.wf(),
    {
        let r = Composition {
            graph: new_graph(),
            rank: Ghost(Map::empty()),
            next_rank: Ghost(0),
        };
        r
    }

    /// Registers a named component binary and instantiates it, wiring the
    /// given arguments in order under the tolerant-linking policy: an
    /// argument name the package does not import is skipped, any other
    /// wiring failure aborts.
    ///
    /// Fails with `MalformedPackage` exactly when the bytes are not a
    /// valid component, with `DuplicatePackage` exactly when the name was
    /// registered before, and otherwise only with a fatal `Wiring` error —
    /// never when every argument name lies outside the component's
    /// imports.  The new instance is a fresh node, and every edge the call
    /// adds runs from a node already present into that fresh node: the
    /// graph grows in topological order.
    pub fn instantiate(&mut self, name: &str, bytes: &Vec<u8>, arguments: Vec<(String, Export)>) -> (r:
        Result<Instance, GraphError>)
        requires
            forall|k: int|
                0 <= k < arguments@.len() ==> old(self).owns_export(
                    (#[trigger] arguments@[k]).1,
                ),
        ensures
            old(self).extends(final(self)),
            r is Ok ==> package_valid(bytes@) && !old(self).keys().contains(name@),
            r matches Err(e) ==> {
                &&& ((e is MalformedPackage) || (e is DuplicatePackage) || (e is Wiring))
                &&& (e is MalformedPackage <==> !package_valid(bytes@))
                &&& (e is DuplicatePackage <==> package_valid(bytes@) && old(self).keys().contains(
                    name@,
                ))
                &&& (e is Wiring ==> package_valid(bytes@) && !old(self).keys().contains(name@)
                    && arguments@.len() > 0)
            },
            ((r is Ok) || (r matches Err(GraphError::Wiring(_)))) ==> final(self).keys() == old(
                self,
            ).keys().insert(name@),
            !(package_valid(bytes@) && !old(self).keys().contains(name@)) ==> final(self).keys()
                == old(self).keys(),
            r matches Ok(inst) ==> final(self).owns_instance(inst),
            r matches Ok(inst) ==> final(self).node_component(inst.node) == bytes@ && !old(
                self,
            ).owns_node(inst.node),
            r matches Ok(inst) ==> forall|e: (wac_graph::NodeId, wac_graph::NodeId)|
                #[trigger] final(self).edges().contains(e) ==> old(self).edges().contains(e) || (
                old(self).owns_node(e.0) && e.1 == inst.node),
            (package_valid(bytes@) && !old(self).keys().contains(name@) && (forall|k: int|
                0 <= k < arguments@.len() ==> !component_imports(bytes@).contains(
                    (#[trigger] arguments@[k]).0@,
                ))) ==> r is Ok,
            final(self).export_names() == old(self).export_names(),
            old(self).wf() ==> final(self).wf(),
    {
        let package = match package_from_bytes(&mut self.graph, name, bytes) {
            Ok(p) => p,
            Err(e) => {
                return Err(e);
            },
        };
        let package_id = match register_package(&mut self.graph, package) {
            Ok(id) => id,
            Err(_) => {
                return Err(GraphError::DuplicatePackage);
            },
        };
        let node = instantiate_node(&mut self.graph, package_id);
        let ghost rank0 = self.rank@;
        self.rank = Ghost(self.rank@.insert(node, self.next_rank@));
        self.next_rank = Ghost(self.next_rank@ + 1);
        proof {
            if old(self).wf() {
                assert forall|e: (wac_graph::NodeId, wac_graph::NodeId)| #[trigger]
                graph_edges(self.graph).contains(e) implies self.rank@.dom().contains(e.0)
                    && self.rank@.dom().contains(e.1) && self.rank@[e.0] < self.rank@[e.1] by {
                    assert(graph_edges(old(self).graph).contains(e));
                    assert(rank0.dom().contains(e.0) && rank0.dom().contains(e.1));
                    assert(graph_has_node(old(self).graph, e.0));
                    assert(graph_has_node(old(self).graph, e.1));
                    assert(e.0 != node && e.1 != node);
                }
            }
        }
        let mut k: usize = 0;
        while k < arguments.len()
            invariant
                k <= arguments@.len(),
                package_valid(bytes@),
                !registered_keys(old(self).graph).contains(name@),
                graph_has_node(self.graph, node),
                graph_node_is_instantiation(self.graph, node),
                !graph_has_node(old(self).graph, node),
                node_bytes(self.graph, node) == bytes@,
                graph_extends(old(self).graph, self.graph),
                registered_keys(self.graph) == registered_keys(old(self).graph).insert(name@),
                graph_export_names(self.graph) == graph_export_names(old(self).graph),
                forall|j: int|
                    0 <= j < arguments@.len() ==> graph_has_node(
                        self.graph,
                        (#[trigger] arguments@[j]).1.node,
                    ),
                forall|j: int|
                    0 <= j < arguments@.len() ==> graph_has_node(
                        old(self).graph,
                        (#[trigger] arguments@[j]).1.node,
                    ),
                forall|e: (wac_graph::NodeId, wac_graph::NodeId)|
                    #[trigger] graph_edges(self.graph).contains(e) ==> graph_edges(
                        old(self).graph,
                    ).contains(e) || (graph_has_node(old(self).graph, e.0) && e.1 == node),
                self.rank@ == old(self).rank@.insert(node, old(self).next_rank@),
                self.next_rank@ == old(self).next_rank@ + 1,
                old(self).wf() ==> edges_ranked(graph_edges(self.graph), self.rank@),
                old(self).wf() ==> (forall|n: wac_graph::NodeId| #[trigger]
                    self.rank@.dom().contains(n) ==> graph_has_node(self.graph, n)
                        && self.rank@[n] < self.next_rank@),
                old(self).wf() ==> (forall|n: wac_graph::NodeId|
                    graph_has_node(self.graph, n) ==> #[trigger] self.rank@.dom().contains(n)),
            decreases arguments@.len() - k,
        {
            let ghost before = self.graph;
            let arg_name = &arguments[k].0;
            let arg_node = arguments[k].1.node;
            let outcome = set_argument(&mut self.graph, node, arg_name.as_str(), arg_node);
            proof {
                assert forall|e: (wac_graph::NodeId, wac_graph::NodeId)| #[trigger]
                graph_edges(self.graph).contains(e) implies graph_edges(
                    old(self).graph,
                ).contains(e) || (graph_has_node(old(self).graph, e.0) && e.1 == node) by {
                    if !graph_edges(before).contains(e) {
                        assert(e == (arg_node, node));
                    }
                }
                if old(self).wf() {
                    assert forall|e: (wac_graph::NodeId, wac_graph::NodeId)| #[trigger]
                    graph_edges(self.graph).contains(e) implies self.rank@.dom().contains(e.0)
                        && self.rank@.dom().contains(e.1) && self.rank@[e.0] < self.rank@[e.1] by {
                        if graph_edges(before).contains(e) {
                        } else {
                            assert(e == (arg_node, node));
                            assert(graph_has_node(old(self).graph, arg_node));
                            assert(old(self).rank@.dom().contains(arg_node));
                            assert(!graph_has_node(old(self).graph, node));
                            assert(arg_node != node);
                        }
                    }
                }
            }
            match wiring_decision(outcome) {
                None => {},
                Some(e) => {
                    proof {
                        assert(!(outcome is SkippedUnknownImport));
                        assert(component_imports(bytes@).contains(arguments@[k as int].0@));
                    }
                    return Err(GraphError::Wiring(e));
                },
            }
            k = k + 1;
        }
        Ok(Instance { node })
    }

    /// Marks an export as the graph's single externally callable entry
    /// point under a public name; succeeds exactly when the name is not
    /// exported yet and is a valid plain export name.
    pub fn export(&mut self, export: Export, name: &str) -> (r: Result<(), GraphError>)
        requires
            old(self).owns_export(export),
        ensures
            old(self).extends(final(self)),
            final(self).keys() == old(self).keys(),
            r is Ok <==> !old(self).export_names().contains(name@) && valid_export_name(name@),
            r is Ok ==> final(self).export_names() == old(self).export_names().insert(name@),
            r matches Err(e) ==> e matches GraphError::Export(_) && final(self).export_names()
                == old(self).export_names(),
            old(self).wf() ==> final(self).wf(),
    {
        export_node(&mut self.graph, export.node, name)
    }

    /// Serializes the composition into one loadable artifact; the graph is
    /// immutable from here on.  Succeeds exactly when the graph encodes,
    /// yielding the bytes the graph determines.
    pub fn encode(&self) -> (r: Result<Vec<u8>, GraphError>)
        ensures
            r is Ok <==> self.encodable(),
            r matches Ok(b) ==> b@ == self.encoded(),
            r matches Err(e) ==> e matches GraphError::Encode(_),
    {
        encode_graph(&self.graph)
    }
}

impl Instance {
    /// Looks a named export of this instance up.
    ///
    /// On an instance this composition handed out, the lookup never fails
    /// and finds an export exactly when the instantiated component exports
    /// the name; absence is the normal `Ok(None)` outcome, not an error.
    /// A found export is the target of an edge from this instance, fresh
    /// unless the same export was aliased before.
    pub fn export(&self, c: &mut Composition, name: &str) -> (r: Result<Option<Export>, GraphError>)
        requires
            old(c).owns_node(self.node),
        ensures
            old(c).extends(final(c)),
            final(c).keys() == old(c).keys(),
            final(c).export_names() == old(c).export_names(),
            old(c).owns_instance(*self) ==> !(r is Err),
            old(c).owns_instance(*self) ==> ((r matches Ok(Some(_))) <==> component_exports(
                old(c).node_component(self.node),
            ).contains(name@)),
            old(c).owns_instance(*self) ==> ((r matches Ok(o) && o is None) <==> !component_exports(
                old(c).node_component(self.node),
            ).contains(name@)),
            r matches Err(e) ==> e is NotAnInstance,
            r matches Ok(Some(e)) ==> final(c).owns_export(e),
            r matches Ok(Some(e)) ==> ((final(c).edges() == old(c).edges() && old(c).owns_node(
                e.node,
            )) || (!old(c).owns_node(e.node) && final(c).edges() == old(c).edges().insert(
                (self.node, e.node),
            ))),
            !(r matches Ok(Some(_))) ==> final(c).edges() == old(c).edges(),
            old(c).wf() ==> final(c).wf(),
    {
        let ghost pre = c.graph;
        match alias_export(&mut c.graph, self.node, name) {
            Ok(Some(id)) => {
                let ghost rank0 = c.rank@;
                c.rank = Ghost(
                    if graph_has_node(pre, id) {
                        c.rank@
                    } else {
                        c.rank@.insert(id, c.next_rank@)
                    },
                );
                c.next_rank = Ghost(c.next_rank@ + 1);
                proof {
                    if old(c).wf() {
                        assert forall|e: (wac_graph::NodeId, wac_graph::NodeId)| #[trigger]
                        graph_edges(c.graph).contains(e) implies c.rank@.dom().contains(e.0)
                            && c.rank@.dom().contains(e.1) && c.rank@[e.0] < c.rank@[e.1] by {
                            if graph_edges(pre).contains(e) {
                                assert(rank0.dom().contains(e.0) && rank0.dom().contains(e.1));
                                assert(graph_has_node(pre, e.0) && graph_has_node(pre, e.1));
                            } else {
                                assert(!graph_has_node(pre, id));
                                assert(e == (self.node, id));
                                assert(graph_has_node(pre, self.node));
                                assert(rank0.dom().contains(self.node));
                                assert(self.node != id);
                            }
                        }
                    }
                }
                Ok(Some(Export { node: id }))
            },
            Ok(None) => Ok(None),
            Err(e) => Err(e),
        }
    }
}

/// A rank orders the edges: every edge runs from a lower-ranked node to a
/// higher-ranked one.
pub open spec fn edges_ranked(
    edges: Set<(wac_graph::NodeId, wac_graph::NodeId)>,
    rank: Map<wac_graph::NodeId, int>,
) -> bool {
    forall|e: (wac_graph::NodeId, wac_graph::NodeId)| #[trigger]
        edges.contains(e) ==> rank.dom().contains(e.0) && rank.dom().contains(e.1) && rank[e.0]
            < rank[e.1]
}

/// A walk along the edges.
pub open spec fn is_edge_path(
    edges: Set<(wac_graph::NodeId, wac_graph::NodeId)>,
    p: Seq<wac_graph::NodeId>,
) -> bool {
    p.len() >= 2 && forall|x: int|
        0 <= x < p.len() - 1 ==> #[trigger] edges.contains((p[x], p[x + 1]))
}

/// The rank grows strictly along a path.
proof fn lemma_rank_grows_on_path(
    edges: Set<(wac_graph::NodeId, wac_graph::NodeId)>,
    rank: Map<wac_graph::NodeId, int>,
    p: Seq<wac_graph::NodeId>,
)
    requires
        edges_ranked(edges, rank),
        is_edge_path(edges, p),
    ensures
        rank.dom().contains(p[0]),
        rank.dom().contains(p[p.len() - 1]),
        rank[p[0]] < rank[p[p.len() - 1]],
    decreases p.len(),
{
    if p.len() == 2 {
        assert(edges.contains((p[0int], p[0int + 1])));
    } else {
        let q = p.drop_first();
        assert(is_edge_path(edges, q)) by {
            assert forall|x: int| 0 <= x < q.len() - 1 implies #[trigger] edges.contains(
                (q[x], q[x + 1]),
            ) by {
                assert(q[x] == p[x + 1] && q[x + 1] == p[x + 2]);
                assert(edges.contains((p[x + 1], p[x + 2])));
            }
        }
        lemma_rank_grows_on_path(edges, rank, q);
        assert(edges.contains((p[0int], p[0int + 1])));
        assert(q[0] == p[1] && q[q.len() - 1] == p[p.len() - 1]);
    }
}

/// Law (the composition is a DAG): edges that a rank orders admit no
/// cycle.  The builder's contracts supply such a rank by construction:
/// `Composition::instantiate` and `Instance::export` state that every
/// edge they add runs from a node already present into the one fresh node
/// they create, so ranking each node by its creation order satisfies
/// `edges_ranked`, and no walk along the edges returns to its start.
pub proof fn lemma_ranked_edges_acyclic(
    edges: Set<(wac_graph::NodeId, wac_graph::NodeId)>,
    rank: Map<wac_graph::NodeId, int>,
    p: Seq<wac_graph::NodeId>,
)
    requires
        edges_ranked(edges, rank),
        is_edge_path(edges, p),
    ensures
        p[0] != p[p.len() - 1],
{
    lemma_rank_grows_on_path(edges, rank, p);
}

/// Law (the composition is a DAG): in a well-formed composition — as
/// `Composition::new` creates one and every builder operation keeps it —
/// no walk along the wiring and alias edges returns to its start: the
/// nodes form a DAG, built in topological order.
pub proof fn lemma_composition_acyclic(c: &Composition, p: Seq<wac_graph::NodeId>)
    requires
        c.wf(),
        is_edge_path(c.edges(), p),
    ensures
        p[0] != p[p.len() - 1],
{
    lemma_rank_grows_on_path(c.edges(), c.rank@, p);
}

/// Extension of the graph is transitive.
proof fn lemma_graph_extends_trans(
    a: wac_graph::CompositionGraph,
    b: wac_graph::CompositionGraph,
    c: wac_graph::CompositionGraph,
)
    requires
        graph_extends(a, b),
        graph_extends(b, c),
    ensures
        graph_extends(a, c),
{
    assert forall|n: wac_graph::NodeId| graph_has_node(a, n) implies #[trigger] graph_has_node(
        c,
        n,
    ) by {
        assert(graph_has_node(b, n));
    }
    assert forall|n: wac_graph::NodeId| graph_node_is_instantiation(a, n) implies #[trigger]
    graph_node_is_instantiation(c, n) by {
        assert(graph_node_is_instantiation(b, n));
    }
    assert forall|p: wac_graph::PackageId| graph_has_package(a, p) implies #[trigger]
    graph_has_package(c, p) by {
        assert(graph_has_package(b, p));
    }
    assert forall|p: wac_graph::types::Package| package_types_registered(a, p) implies #[trigger]
    package_types_registered(c, p) by {
        assert(package_types_registered(b, p));
    }
}

/// Looks an export up that the composition requires to be present: its
/// absence is a structural error carrying the name.
fn required_export(c: &mut Composition, provider: Instance, name: &str) -> (r: Result<
    Export,
    GraphError,
>)
    requires
        old(c).owns_instance(provider),
    ensures
        graph_extends(old(c).graph, final(c).graph),
        registered_keys(final(c).graph) == registered_keys(old(c).graph),
        graph_export_names(final(c).graph) == graph_export_names(old(c).graph),
        r is Ok <==> component_exports(old(c).node_component(provider.node)).contains(name@),
        r matches Ok(e) ==> final(c).owns_export(e),
        r matches Err(e) ==> e matches GraphError::MissingExport(_),
        old(c).wf() ==> final(c).wf(),
{
    match provider.export(c, name) {
        Ok(Some(e)) => Ok(e),
        Ok(None) => Err(GraphError::MissingExport(String::from_str(name))),
        Err(_) => vstd::pervasive::unreached(),
    }
}

/// Aliases the like-named export of one provider for every capability
/// name of a declarative wiring table, in order.
fn alias_capabilities(c: &mut Composition, provider: Instance, names: &Vec<String>) -> (r: Result<
    Vec<(String, Export)>,
    GraphError,
>)
    requires
        old(c).owns_instance(provider),
    ensures
        graph_extends(old(c).graph, final(c).graph),
        registered_keys(final(c).graph) == registered_keys(old(c).graph),
        graph_export_names(final(c).graph) == graph_export_names(old(c).graph),
        r matches Ok(args) ==> forall|k: int|
            0 <= k < args@.len() ==> final(c).owns_export((#[trigger] args@[k]).1),
        r matches Ok(args) ==> args@.len() == names@.len() && forall|k: int|
            0 <= k < args@.len() ==> (#[trigger] args@[k]).0@ == names@[k]@,
        (forall|k: int|
            0 <= k < names@.len() ==> component_exports(
                old(c).node_component(provider.node),
            ).contains((#[trigger] names@[k])@)) ==> r is Ok,
        r matches Err(e) ==> e matches GraphError::MissingExport(_),
        old(c).wf() ==> final(c).wf(),
{
    let mut args: Vec<(String, Export)> = Vec::new();
    let mut i: usize = 0;
    while i < names.len()
        invariant
            i <= names@.len(),
            graph_extends(old(c).graph, c.graph),
            registered_keys(c.graph) == registered_keys(old(c).graph),
            graph_export_names(c.graph) == graph_export_names(old(c).graph),
            node_bytes(c.graph, provider.node) == node_bytes(old(c).graph, provider.node),
            old(c).wf() ==> c.wf(),
            c.owns_instance(provider),
            args@.len() == i,
            forall|k: int|
                0 <= k < args@.len() ==> c.owns_export((#[trigger] args@[k]).1),
            forall|k: int|
                0 <= k < args@.len() ==> (#[trigger] args@[k]).0@ == names@[k]@,
        decreases names@.len() - i,
    {
        let ghost mid = c.graph;
        let e = match required_export(c, provider, names[i].as_str()) {
            Ok(e) => e,
            Err(e) => {
                proof {
                    assert(!component_exports(node_bytes(old(c).graph, provider.node)).contains(
                        names@[i as int]@,
                    ));
                }
                return Err(e);
            },
        };
        proof {
            lemma_graph_extends_trans(old(c).graph, mid, c.graph);
            assert forall|k: int| 0 <= k < args@.len() implies c.owns_export(
                (#[trigger] args@[k]).1,
            ) by {
                assert(graph_has_node(mid, args@[k].1.node));
            }
        }
        let arg_name = names[i].clone();
        args.push((arg_name, e));
        i = i + 1;
    }
    Ok(args)
}

/// The capability imports of an application under test, each served by the
/// virtualization shim's like-named export; applications implementing only
/// a subset still link under the tolerant-skip policy.
fn app_capability_names() -> (r: Vec<String>)
    ensures
        r@.len() == 9,
        r@[0]@ == "fermyon:spin/key-value@2.0.0"@,
        r@[1]@ == "fermyon:spin/llm@2.0.0"@,
        r@[2]@ == "fermyon:spin/redis@2.0.0"@,
        r@[3]@ == "fermyon:spin/mysql@2.0.0"@,
        r@[4]@ == "fermyon:spin/postgres@2.0.0"@,
        r@[5]@ == "fermyon:spin/sqlite@2.0.0"@,
        r@[6]@ == "fermyon:spin/mqtt@2.0.0"@,
        r@[7]@ == "fermyon:spin/variables@2.0.0"@,
        r@[8]@ == "wasi:http/outgoing-handler@0.2.0"@,
{
    let mut names: Vec<String> = Vec::new();
    names.push(String::from_str("fermyon:spin/key-value@2.0.0"));
    names.push(String::from_str("fermyon:spin/llm@2.0.0"));
    names.push(String::from_str("fermyon:spin/redis@2.0.0"));
    names.push(String::from_str("fermyon:spin/mysql@2.0.0"));
    names.push(String::from_str("fermyon:spin/postgres@2.0.0"));
    names.push(String::from_str("fermyon:spin/sqlite@2.0.0"));
    names.push(String::from_str("fermyon:spin/mqtt@2.0.0"));
    names.push(String::from_str("fermyon:spin/variables@2.0.0"));
    names.push(String::from_str("wasi:http/outgoing-handler@0.2.0"));
    names
}

/// Composes the conformance artifact from the five component binaries:
/// the virtualization shim and platform shim are instantiated with no
/// imports; the application is wired to the shim's capability exports
/// under the tolerant-skip policy; the router is wired to the shim's
/// component binding and the application's inbound handler; the test
/// harness is wired to the router as inbound handler and to the shim as
/// outbound handler and call recorder; the harness's `run` export becomes
/// the artifact's single public entry point.
///
/// Fails with `MalformedPackage` when a binary is not a valid component;
/// the five package names are distinct, so registration itself never
/// fails.
/// The inputs under which the conformance composition goes through, up
/// to the encoder: every binary is a valid component, every export the
/// fixed topology aliases is present on its provider, no table name is
/// among its consumer's imports (so every wiring is skipped as unknown),
/// and the entry-point name is a valid export name.  A consumer that does
/// import a table name may still compose; whether that wiring
/// type-checks is the linking library's decision, which these contracts
/// do not model.
pub open spec fn composition_inputs_ready(
    app: Seq<u8>,
    test: Seq<u8>,
    virt: Seq<u8>,
    wasi_virt: Seq<u8>,
    router: Seq<u8>,
) -> bool {
    &&& package_valid(app) && package_valid(test) && package_valid(virt) && package_valid(
        wasi_virt,
    ) && package_valid(router)
    &&& component_exports(virt).contains("fermyon:spin/key-value@2.0.0"@)
    &&& component_exports(virt).contains("fermyon:spin/llm@2.0.0"@)
    &&& component_exports(virt).contains("fermyon:spin/redis@2.0.0"@)
    &&& component_exports(virt).contains("fermyon:spin/mysql@2.0.0"@)
    &&& component_exports(virt).contains("fermyon:spin/postgres@2.0.0"@)
    &&& component_exports(virt).contains("fermyon:spin/sqlite@2.0.0"@)
    &&& component_exports(virt).contains("fermyon:spin/mqtt@2.0.0"@)
    &&& component_exports(virt).contains("fermyon:spin/variables@2.0.0"@)
    &&& component_exports(virt).contains("wasi:http/outgoing-handler@0.2.0"@)
    &&& component_exports(virt).contains("set-component-id"@)
    &&& component_exports(virt).contains("fermyon:spin-test-virt/key-value-calls"@)
    &&& component_exports(virt).contains("fermyon:spin-test-virt/http-handler"@)
    &&& component_exports(app).contains("wasi:http/incoming-handler@0.2.0"@)
    &&& component_exports(router).contains("wasi:http/incoming-handler@0.2.0"@)
    &&& component_exports(test).contains("run"@)
    &&& !component_imports(app).contains("fermyon:spin/key-value@2.0.0"@)
    &&& !component_imports(app).contains("fermyon:spin/llm@2.0.0"@)
    &&& !component_imports(app).contains("fermyon:spin/redis@2.0.0"@)
    &&& !component_imports(app).contains("fermyon:spin/mysql@2.0.0"@)
    &&& !component_imports(app).contains("fermyon:spin/postgres@2.0.0"@)
    &&& !component_imports(app).contains("fermyon:spin/sqlite@2.0.0"@)
    &&& !component_imports(app).contains("fermyon:spin/mqtt@2.0.0"@)
    &&& !component_imports(app).contains("fermyon:spin/variables@2.0.0"@)
    &&& !component_imports(app).contains("wasi:http/outgoing-handler@0.2.0"@)
    &&& !component_imports(router).contains("set-component-id"@)
    &&& !component_imports(router).contains("wasi:http/incoming-handler@0.2.0"@)
    &&& !component_imports(test).contains("wasi:http/incoming-handler@0.2.0"@)
    &&& !component_imports(test).contains("wasi:http/outgoing-handler@0.2.0"@)
    &&& !component_imports(test).contains("fermyon:spin/key-value@2.0.0"@)
    &&& !component_imports(test).contains("fermyon:spin-test-virt/key-value-calls"@)
    &&& !component_imports(test).contains("fermyon:spin-test-virt/http-handler"@)
    &&& valid_export_name("run"@)
}

pub fn encode_composition(
    app: Vec<u8>,
    test: Vec<u8>,
    virt: Vec<u8>,
    wasi_virt: Vec<u8>,
    router: Vec<u8>,
) -> (r: Result<Vec<u8>, GraphError>)
    ensures
        r is Ok ==> package_valid(virt@) && package_valid(wasi_virt@) && package_valid(app@)
            && package_valid(router@) && package_valid(test@),
        !package_valid(virt@) ==> (r matches Err(GraphError::MalformedPackage(_))),
        package_valid(virt@) && !package_valid(wasi_virt@) ==> (r matches Err(
            GraphError::MalformedPackage(_),
        )),
        !(r matches Err(GraphError::DuplicatePackage)),
        composition_inputs_ready(app@, test@, virt@, wasi_virt@, router@) ==> ((r is Ok) || (
        r matches Err(GraphError::Encode(_)))),
{
    let ghost ready = composition_inputs_ready(app@, test@, virt@, wasi_virt@, router@);
    proof {
        reveal_strlit("virt");
        reveal_strlit("wasi_virt");
        reveal_strlit("app");
        reveal_strlit("router");
        reveal_strlit("test");
    }
    let mut c = Composition::new();
    let virt_inst = match c.instantiate("virt", &virt, Vec::new()) {
        Ok(i) => i,
        Err(e) => {
            return Err(e);
        },
    };
    proof {
        assert("virt"@.len() == 4);
        assert("wasi_virt"@.len() == 9);
        assert("app"@.len() == 3);
        assert("router"@.len() == 6);
        assert("test"@.len() == 4);
        assert("virt"@[0] == 'v' && "test"@[0] == 't');
        assert(c.keys() == Set::<Seq<char>>::empty().insert("virt"@));
    }
    let _wasi_virt_inst = match c.instantiate("wasi_virt", &wasi_virt, Vec::new()) {
        Ok(i) => i,
        Err(e) => {
            return Err(e);
        },
    };
    proof {
        assert(c.owns_instance(virt_inst));
        assert(c.node_component(virt_inst.node) == virt@);
    }
    let capability_names = app_capability_names();
    proof {
        if ready {
            assert forall|k: int| 0 <= k < capability_names@.len() implies component_exports(
                virt@,
            ).contains((#[trigger] capability_names@[k])@) by {
                if k == 0 {
                } else if k == 1 {
                } else if k == 2 {
                } else if k == 3 {
                } else if k == 4 {
                } else if k == 5 {
                } else if k == 6 {
                } else if k == 7 {
                } else {
                    assert(k == 8);
                }
            }
        }
    }
    let app_args = match alias_capabilities(&mut c, virt_inst, &capability_names) {
        Ok(a) => a,
        Err(e) => {
            return Err(e);
        },
    };
    proof {
        if ready {
            assert forall|k: int| 0 <= k < app_args@.len() implies !component_imports(
                app@,
            ).contains((#[trigger] app_args@[k]).0@) by {
                assert(app_args@[k].0@ == capability_names@[k]@);
                if k == 0 {
                } else if k == 1 {
                } else if k == 2 {
                } else if k == 3 {
                } else if k == 4 {
                } else if k == 5 {
                } else if k == 6 {
                } else if k == 7 {
                } else {
                    assert(k == 8);
                }
            }
        }
    }
    let app_inst = match c.instantiate("app", &app, app_args) {
        Ok(i) => i,
        Err(e) => {
            return Err(e);
        },
    };
    proof {
        assert(c.owns_instance(virt_inst));
    }
    let mut router_args: Vec<(String, Export)> = Vec::new();
    proof {
        assert(c.node_component(virt_inst.node) == virt@);
        assert(c.node_component(app_inst.node) == app@);
    }
    let bind = match required_export(&mut c, virt_inst, "set-component-id") {
        Ok(e) => e,
        Err(e) => {
            return Err(e);
        },
    };
    router_args.push((String::from_str("set-component-id"), bind));
    proof {
        assert(c.owns_instance(app_inst));
    }
    let ghost g4 = c.graph;
    let inbound = match required_export(&mut c, app_inst, "wasi:http/incoming-handler@0.2.0") {
        Ok(e) => e,
        Err(e) => {
            return Err(e);
        },
    };
    router_args.push((String::from_str("wasi:http/incoming-handler@0.2.0"), inbound));
    proof {
        assert(c.owns_export(router_args@[0].1)) by {
            assert(graph_has_node(g4, router_args@[0].1.node));
        }
        assert(c.owns_export(router_args@[1].1));
        if ready {
            assert forall|k: int| 0 <= k < router_args@.len() implies !component_imports(
                router@,
            ).contains((#[trigger] router_args@[k]).0@) by {
                if k == 0 {
                    assert(router_args@[0].0@ == "set-component-id"@);
                } else {
                    assert(k == 1);
                    assert(router_args@[1].0@ == "wasi:http/incoming-handler@0.2.0"@);
                }
            }
        }
    }
    let router_inst = match c.instantiate("router", &router, router_args) {
        Ok(i) => i,
        Err(e) => {
            return Err(e);
        },
    };
    proof {
        assert(c.owns_instance(virt_inst));
        assert(c.owns_instance(router_inst));
    }
    let mut test_args: Vec<(String, Export)> = Vec::new();
    proof {
        assert(c.node_component(router_inst.node) == router@);
    }
    let handler = match required_export(&mut c, router_inst, "wasi:http/incoming-handler@0.2.0") {
        Ok(e) => e,
        Err(e) => {
            return Err(e);
        },
    };
    test_args.push((String::from_str("wasi:http/incoming-handler@0.2.0"), handler));
    proof {
        assert(c.owns_instance(virt_inst));
        assert(c.node_component(virt_inst.node) == virt@);
    }
    let ghost g6 = c.graph;
    let outbound = match required_export(&mut c, virt_inst, "wasi:http/outgoing-handler@0.2.0") {
        Ok(e) => e,
        Err(e) => {
            return Err(e);
        },
    };
    test_args.push((String::from_str("wasi:http/outgoing-handler@0.2.0"), outbound));
    let ghost g7 = c.graph;
    let kv = match required_export(&mut c, virt_inst, "fermyon:spin/key-value@2.0.0") {
        Ok(e) => e,
        Err(e) => {
            return Err(e);
        },
    };
    test_args.push((String::from_str("fermyon:spin/key-value@2.0.0"), kv));
    let ghost g8 = c.graph;
    let kv_calls = match required_export(&mut c, virt_inst, "fermyon:spin-test-virt/key-value-calls") {
        Ok(e) => e,
        Err(e) => {
            return Err(e);
        },
    };
    test_args.push((String::from_str("fermyon:spin-test-virt/key-value-calls"), kv_calls));
    let ghost g9 = c.graph;
    let recorder = match required_export(&mut c, virt_inst, "fermyon:spin-test-virt/http-handler") {
        Ok(e) => e,
        Err(e) => {
            return Err(e);
        },
    };
    test_args.push((String::from_str("fermyon:spin-test-virt/http-handler"), recorder));
    proof {
        assert(graph_has_node(g6, test_args@[0].1.node));
        assert(graph_has_node(g7, test_args@[1].1.node));
        assert(graph_has_node(g8, test_args@[2].1.node));
        assert(graph_has_node(g9, test_args@[3].1.node));
        assert(forall|k: int|
            0 <= k < test_args@.len() ==> c.owns_export((#[trigger] test_args@[k]).1));
        if ready {
            assert forall|k: int| 0 <= k < test_args@.len() implies !component_imports(
                test@,
            ).contains((#[trigger] test_args@[k]).0@) by {
                if k == 0 {
                    assert(test_args@[0].0@ == "wasi:http/incoming-handler@0.2.0"@);
                } else if k == 1 {
                    assert(test_args@[1].0@ == "wasi:http/outgoing-handler@0.2.0"@);
                } else if k == 2 {
                    assert(test_args@[2].0@ == "fermyon:spin/key-value@2.0.0"@);
                } else if k == 3 {
                    assert(test_args@[3].0@ == "fermyon:spin-test-virt/key-value-calls"@);
                } else {
                    assert(k == 4);
                    assert(test_args@[4].0@ == "fermyon:spin-test-virt/http-handler"@);
                }
            }
        }
    }
    let test_inst = match c.instantiate("test", &test, test_args) {
        Ok(i) => i,
        Err(e) => {
            return Err(e);
        },
    };
    proof {
        assert(c.owns_instance(test_inst));
        assert(c.node_component(test_inst.node) == test@);
    }
    let run = match required_export(&mut c, test_inst, "run") {
        Ok(e) => e,
        Err(e) => {
            return Err(e);
        },
    };
    proof {
        assert(c.export_names() == Set::<Seq<char>>::empty());
    }
    match c.export(run, "run") {
        Ok(()) => {},
        Err(e) => {
            return Err(e);
        },
    }
    c.encode()
}

} // verus!

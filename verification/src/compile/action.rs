//! Deployment actions: generating seeds, registering spawned animals, and
//! finalizing the topology of a program's state.

use vstd::prelude::*;
use vstd::string::*;

use crate::compile::label::{cut_paths, is_trimmed, short_type_label};
use crate::compile::register::{register_vertex, vertex_registered};
use crate::compile::{SunProgram, SunTopologyState};
use crate::contract::ContractDescriptor;
use crate::error::AtomError;
use crate::failure::{refused, refused_by, says, Failure};
use crate::forward::{ForwardRuntime, ForwardSunState, NeutralSunState};
use crate::ids::{ObjectId, Uuid};
use crate::nodes::fusion::FusionSeed;
use crate::topology::resolve::{
    explains_unresolvable, finalized_as, resolvable, resolve_neutral_topology, sinks,
};
use crate::topology::{DeclaredEdge, SunTopology};

verus! {

broadcast use vstd::std_specs::hash::group_hash_axioms;

/// What a spawned vertex declares of itself.
pub struct VertexDescriptor {
    /// Full type name of the animal at the vertex.
    pub animal: String,
    /// Contract of the operation it executes.
    pub contract: ContractDescriptor,
    /// Edges that leave it.
    pub edges: Vec<DeclaredEdge>,
}

/// `state` holds the vertex `vertex_id`, labelled after its animal, with the
/// given ports.
pub open spec fn spawned<Program: SunProgram>(
    before: Program::State,
    after: Program::State,
    vertex_id: u32,
    label: String,
    ports: Seq<(u32, ObjectId)>,
    descriptor: VertexDescriptor,
    journey_id: Uuid,
    warp_journey_id: Option<Uuid>,
) -> bool {
    &&& vertex_registered(
        before.topology_view(),
        after.topology_view(),
        vertex_id,
        label,
        ports,
        descriptor.contract,
        descriptor.edges,
        journey_id,
        warp_journey_id,
    )
    &&& before.topology_view().well_formed() ==> after.topology_view().well_formed()
    &&& Program::inboxes_registered(before, after, ports)
}

/// `label` is the short form of the type name `full`.
pub open spec fn is_short_label(full: Seq<char>, label: Seq<char>) -> bool {
    is_trimmed(cut_paths(Seq::empty(), full), label)
}

/// Spawns and registers a vertex with one input port, which is also its key.
pub struct SpawnUnary<const P: u32>;

impl<const P: u32> SpawnUnary<P> {
    /// The seed to spawn with, and the seed to keep.
    pub fn emit<Program: SunProgram>(input: Program::UnarySeed) -> (emitted: (
        Program::UnarySeed,
        Program::UnarySeed,
    ))
        ensures
            emitted == (input, input),
    {
        (input, input)
    }

    /// Registers the spawned animal.
    pub fn absorb<Program: SunProgram>(
        state: &mut Program::State,
        output: Result<Uuid, AtomError>,
        seed: Program::UnarySeed,
        descriptor: VertexDescriptor,
    ) -> (result: Result<(), Failure>)
        ensures
            match output {
                Ok(journey_id) => {
                    &&& result is Ok
                    &&& exists|label: String| #[trigger]
                        is_short_label(descriptor.animal@, label@) && spawned::<Program>(
                            *old(state),
                            *final(state),
                            P,
                            label,
                            seq![(P, Program::spec_unary_inbox(seed))],
                            descriptor,
                            journey_id,
                            None,
                        )
                },
                Err(error) => {
                    &&& result matches Err(failure) && says(
                        failure,
                        "spawn failed: "@ + error.text(),
                    )
                    &&& *final(state) == *old(state)
                },
            },
    {
        let journey_id = match output {
            Ok(journey_id) => journey_id,
            Err(error) => {
                return Err(refused_by("spawn failed: ", &error));
            },
        };
        let label = short_type_label(descriptor.animal.as_str());
        let mut ports: Vec<(u32, ObjectId)> = Vec::new();
        ports.push((P, Program::unary_inbox(&seed)));
        assert(ports@ =~= seq![(P, Program::spec_unary_inbox(seed))]);
        register_vertex::<Program>(
            state,
            P,
            label,
            &ports,
            descriptor.contract,
            descriptor.edges,
            journey_id,
            None,
        );
        assert(is_short_label(descriptor.animal@, label@));
        Ok(())
    }
}

/// Spawns and registers a vertex with two input ports, keyed by the first.
pub struct SpawnBinary<const P1: u32, const P2: u32>;

impl<const P1: u32, const P2: u32> SpawnBinary<P1, P2> {
    /// The seed to spawn with, and the seed to keep.
    pub fn emit<Program: SunProgram>(seed: Program::BinarySeed) -> (emitted: (
        Program::BinarySeed,
        Program::BinarySeed,
    ))
        ensures
            emitted == (seed, seed),
    {
        (seed, seed)
    }

    /// Registers the spawned animal.
    pub fn absorb<Program: SunProgram>(
        state: &mut Program::State,
        output: Result<Uuid, AtomError>,
        seed: Program::BinarySeed,
        descriptor: VertexDescriptor,
    ) -> (result: Result<(), Failure>)
        ensures
            match output {
                Ok(journey_id) => {
                    let inboxes = Program::spec_binary_inboxes(seed)@;
                    &&& result is Ok
                    &&& exists|label: String| #[trigger]
                        is_short_label(descriptor.animal@, label@) && spawned::<Program>(
                            *old(state),
                            *final(state),
                            P1,
                            label,
                            seq![(P1, inboxes[0]), (P2, inboxes[1])],
                            descriptor,
                            journey_id,
                            None,
                        )
                },
                Err(error) => {
                    &&& result matches Err(failure) && says(
                        failure,
                        "spawn failed: "@ + error.text(),
                    )
                    &&& *final(state) == *old(state)
                },
            },
    {
        let journey_id = match output {
            Ok(journey_id) => journey_id,
            Err(error) => {
                return Err(refused_by("spawn failed: ", &error));
            },
        };
        let label = short_type_label(descriptor.animal.as_str());
        let inboxes = Program::binary_inboxes(&seed);
        let mut ports: Vec<(u32, ObjectId)> = Vec::new();
        ports.push((P1, inboxes[0]));
        ports.push((P2, inboxes[1]));
        assert(ports@ =~= seq![(P1, inboxes@[0]), (P2, inboxes@[1])]);
        register_vertex::<Program>(
            state,
            P1,
            label,
            &ports,
            descriptor.contract,
            descriptor.edges,
            journey_id,
            None,
        );
        assert(is_short_label(descriptor.animal@, label@));
        Ok(())
    }
}

/// Spawns the nested animal of a warp vertex and keeps its journey id.
pub struct SpawnWarpAnimal;

impl SpawnWarpAnimal {
    pub fn absorb<Program: SunProgram>(
        output: Result<Uuid, AtomError>,
        carry: Program::UnarySeed,
    ) -> (result: Result<(Program::UnarySeed, Uuid), Failure>)
        ensures
            match output {
                Ok(warp_journey_id) => result == Ok::<_, Failure>((carry, warp_journey_id)),
                Err(error) => result matches Err(failure) && says(
                    failure,
                    "warp spawn failed: "@ + error.text(),
                ),
            },
    {
        match output {
            Ok(warp_journey_id) => Ok((carry, warp_journey_id)),
            Err(error) => Err(refused_by("warp spawn failed: ", &error)),
        }
    }
}

/// The label of a warp vertex, made of the short labels of its two animals.
pub open spec fn is_warp_label(warp: Seq<char>, boundary: Seq<char>, label: Seq<char>) -> bool {
    exists|a: Seq<char>, b: Seq<char>| #[trigger]
        is_short_label(warp, a) && #[trigger] is_short_label(boundary, b) && label == "Warp<"@ + a
            + ", "@ + b + ">"@
}

/// Spawns the boundary animal of a warp vertex and registers it as the vertex
/// of the parent graph.
pub struct SpawnWarpBoundary<const P: u32>;

impl<const P: u32> SpawnWarpBoundary<P> {
    /// The boundary's seed, and what to keep.
    pub fn emit<Program: SunProgram>(input: (Program::UnarySeed, Uuid)) -> (emitted: (
        Program::WarpSeed,
        (Program::UnarySeed, Uuid),
    ))
        ensures
            emitted.0 == Program::spec_warp_seed(Program::spec_unary_inbox(input.0), input.1),
            emitted.1 == input,
    {
        let (init, warp_journey_id) = input;
        (
            Program::warp_seed(Program::unary_inbox(&init), warp_journey_id),
            (init, warp_journey_id),
        )
    }

    /// Registers the spawned boundary together with the nested journey.
    pub fn absorb<Program: SunProgram>(
        state: &mut Program::State,
        output: Result<Uuid, AtomError>,
        carry: (Program::UnarySeed, Uuid),
        warp_animal: &str,
        descriptor: VertexDescriptor,
    ) -> (result: Result<(), Failure>)
        ensures
            match output {
                Ok(boundary_journey_id) => {
                    &&& result is Ok
                    &&& exists|label: String| #[trigger]
                        is_warp_label(warp_animal@, descriptor.animal@, label@) && spawned::<
                            Program,
                        >(
                            *old(state),
                            *final(state),
                            P,
                            label,
                            seq![(P, Program::spec_unary_inbox(carry.0))],
                            descriptor,
                            boundary_journey_id,
                            Some(carry.1),
                        )
                },
                Err(error) => {
                    &&& result matches Err(failure) && says(
                        failure,
                        "boundary spawn failed: "@ + error.text(),
                    )
                    &&& *final(state) == *old(state)
                },
            },
    {
        let boundary_journey_id = match output {
            Ok(journey_id) => journey_id,
            Err(error) => {
                return Err(refused_by("boundary spawn failed: ", &error));
            },
        };
        let (init, warp_journey_id) = carry;
        let warp_label = short_type_label(warp_animal);
        let boundary_label = short_type_label(descriptor.animal.as_str());
        let mut label = "Warp<".to_owned();
        label.append(warp_label.as_str());
        label.append(", ");
        label.append(boundary_label.as_str());
        label.append(">");
        proof {
            assert(is_short_label(warp_animal@, warp_label@));
            assert(is_short_label(descriptor.animal@, boundary_label@));
            assert(is_warp_label(warp_animal@, descriptor.animal@, label@));
        }
        let mut ports: Vec<(u32, ObjectId)> = Vec::new();
        ports.push((P, Program::unary_inbox(&init)));
        assert(ports@ =~= seq![(P, Program::spec_unary_inbox(carry.0))]);
        register_vertex::<Program>(
            state,
            P,
            label,
            &ports,
            descriptor.contract,
            descriptor.edges,
            boundary_journey_id,
            Some(warp_journey_id),
        );
        Ok(())
    }
}

/// Draws the identifier that seeds one cell.
pub struct GenUuidEffect;

impl GenUuidEffect {
    pub fn effect() -> (id: Uuid)
        ensures
            id.is_random(),
    {
        Uuid::new_v4()
    }
}

/// Generates the initial inbox used to seed one spawned cell.
pub struct GenUuid;

impl GenUuid {
    pub fn absorb<Program: SunProgram>(output: Result<Uuid, AtomError>) -> (result: Result<
        Program::UnarySeed,
        Failure,
    >)
        ensures
            match output {
                Ok(recv_id) => result == Ok::<_, Failure>(Program::spec_unary_seed(recv_id)),
                Err(_) => result matches Err(failure) && says(
                    failure,
                    "failed to generate a uuid..."@,
                ),
            },
    {
        match output {
            Ok(recv_id) => Ok(Program::unary_seed(recv_id)),
            Err(_) => Err(refused("failed to generate a uuid...")),
        }
    }
}

/// Draws the two identifiers that seed one binary vertex.
pub struct GenFusionSeedEffect;

impl GenFusionSeedEffect {
    pub fn effect() -> (seed: FusionSeed)
        ensures
            seed.p1_recv_id.is_random(),
            seed.p2_recv_id.is_random(),
            seed.grad_steps == 1,
    {
        GenFusionSeedEffect::effect_with(Uuid::new_v4(), Uuid::new_v4())
    }

    /// The seed made of the two drawn identifiers.
    pub fn effect_with(p1_recv_id: Uuid, p2_recv_id: Uuid) -> (seed: FusionSeed)
        ensures
            seed == (FusionSeed { p1_recv_id, p2_recv_id, grad_steps: 1 }),
    {
        FusionSeed { p1_recv_id, p2_recv_id, grad_steps: 1 }
    }
}

/// Generates the two independent initial inboxes for a binary vertex.
pub struct GenFusionSeed;

impl GenFusionSeed {
    pub fn absorb<Program: SunProgram>(output: Result<FusionSeed, AtomError>) -> (result: Result<
        Program::BinarySeed,
        Failure,
    >)
        ensures
            match output {
                Ok(seed) => result == Ok::<_, Failure>(
                    Program::spec_binary_seed([seed.p1_recv_id, seed.p2_recv_id]),
                ),
                Err(_) => result matches Err(failure) && says(
                    failure,
                    "failed to generate fusion seed"@,
                ),
            },
    {
        match output {
            Ok(seed) => Ok(Program::binary_seed([seed.p1_recv_id, seed.p2_recv_id])),
            Err(_) => Err(refused("failed to generate fusion seed")),
        }
    }
}

/// Finalizes a graph for a forward program.
pub struct FinalizeForwardGraph;

impl FinalizeForwardGraph {
    pub fn absorb<S>(state: &mut ForwardSunState<S>, output: Result<(), AtomError>) -> (result:
        Result<(), Failure>)
        requires
            old(state).topology.well_formed(),
        ensures
            result is Ok <==> output is Ok && resolvable(old(state).topology, true),
            result is Ok ==> {
                &&& finalized_as(old(state).topology, final(state).topology)
                &&& final(state).runtime.sink_id matches Some(sink) && sinks(
                    old(state).topology,
                ) == set![sink]
                &&& final(state).runtime.pending@ == Map::<u32, usize>::empty()
                &&& final(state).runtime.ready@ == Set::<u32>::empty()
                &&& final(state).runtime.next_inputs@ == Map::<u32, ObjectId>::empty()
                &&& final(state).runtime.outputs@ == Map::<u32, ObjectId>::empty()
                &&& final(state).runtime == (ForwardRuntime {
                    pending: final(state).runtime.pending,
                    ready: final(state).runtime.ready,
                    next_inputs: final(state).runtime.next_inputs,
                    outputs: final(state).runtime.outputs,
                    sink_id: final(state).runtime.sink_id,
                    ..old(state).runtime
                })
            },
            result matches Err(failure) ==> {
                &&& final(state).runtime == old(state).runtime
                &&& if output is Err {
                    &&& says(failure, "finalize forward graph failed"@)
                    &&& final(state).topology == old(state).topology
                } else {
                    &&& explains_unresolvable(old(state).topology, true, failure)
                    &&& final(state).topology == (SunTopology {
                        finalized: false,
                        ..old(state).topology
                    })
                }
            },
    {
        if output.is_err() {
            return Err(refused("finalize forward graph failed"));
        }
        let sink = match resolve_neutral_topology(&mut state.topology) {
            Ok(sink) => sink,
            Err(failure) => {
                return Err(failure);
            },
        };
        state.runtime.pending.clear();
        state.runtime.ready.clear();
        state.runtime.next_inputs.clear();
        state.runtime.outputs.clear();
        state.runtime.sink_id = Some(sink);
        Ok(())
    }
}

/// Finalizes a topology for a program without a forward runtime.
pub struct FinalizeNeutralGraph;

impl FinalizeNeutralGraph {
    pub fn absorb<S>(state: &mut NeutralSunState<S>, output: Result<(), AtomError>) -> (result:
        Result<(), Failure>)
        requires
            old(state).topology.well_formed(),
        ensures
            final(state).inner == old(state).inner,
            result is Ok <==> output is Ok && resolvable(old(state).topology, true),
            result is Ok ==> finalized_as(old(state).topology, final(state).topology),
            result matches Err(failure) ==> if output is Err {
                &&& says(failure, "finalize neutral graph failed"@)
                &&& final(state).topology == old(state).topology
            } else {
                &&& explains_unresolvable(old(state).topology, true, failure)
                &&& final(state).topology == (SunTopology {
                    finalized: false,
                    ..old(state).topology
                })
            },
    {
        if output.is_err() {
            return Err(refused("finalize neutral graph failed"));
        }
        match resolve_neutral_topology(&mut state.topology) {
            Ok(_) => Ok(()),
            Err(failure) => Err(failure),
        }
    }
}

} // verus!

//! Erased operation contracts: what a node consumes and what it produces.

use vstd::prelude::*;

verus! {

/// Element type of a tensor.
#[derive(Clone, Copy, Debug, PartialEq, Eq, Structural)]
pub enum TensorDtype {
    U8,
    U32,
    I64,
    F16,
    BF16,
    F32,
    F64,
}

/// Which element types a port admits.
#[derive(Clone, Copy, Debug, PartialEq, Eq, Structural)]
pub enum DtypeConstraint {
    Any,
    Exact(TensorDtype),
}

/// Extent of one tensor axis.
#[derive(Clone, Copy, Debug, PartialEq, Eq, Structural)]
pub enum DimensionDescriptor {
    Dynamic,
    Static(u64),
}

/// One named tensor of a bundle.
#[derive(Debug)]
pub struct PortDescriptor {
    pub name: String,
    pub dimensions: Vec<DimensionDescriptor>,
    pub dtype: DtypeConstraint,
}

/// What a [`PortDescriptor`] says.
#[verifier::ext_equal]
pub ghost struct PortDescriptorView {
    pub name: Seq<char>,
    pub dimensions: Seq<DimensionDescriptor>,
    pub dtype: DtypeConstraint,
}

impl View for PortDescriptor {
    type V = PortDescriptorView;

    open spec fn view(&self) -> PortDescriptorView {
        PortDescriptorView {
            name: self.name@,
            dimensions: self.dimensions@,
            dtype: self.dtype,
        }
    }
}

/// What a list of port descriptors says, port by port.
pub open spec fn bundle_view(ports: Seq<PortDescriptor>) -> Seq<PortDescriptorView> {
    ports.map_values(|port: PortDescriptor| port@)
}

/// Identity and tensor bundles of one operation.
#[derive(Debug)]
pub struct ContractDescriptor {
    pub id: u128,
    pub version: u32,
    pub inputs: Vec<PortDescriptor>,
    pub outputs: Vec<PortDescriptor>,
}

/// What a [`ContractDescriptor`] says.
#[verifier::ext_equal]
pub ghost struct ContractView {
    pub id: u128,
    pub version: u32,
    pub inputs: Seq<PortDescriptorView>,
    pub outputs: Seq<PortDescriptorView>,
}

impl View for ContractDescriptor {
    type V = ContractView;

    open spec fn view(&self) -> ContractView {
        ContractView {
            id: self.id,
            version: self.version,
            inputs: bundle_view(self.inputs@),
            outputs: bundle_view(self.outputs@),
        }
    }
}

fn same_dimensions(a: &Vec<DimensionDescriptor>, b: &Vec<DimensionDescriptor>) -> (same: bool)
    ensures
        same == (a@ == b@),
{
    if a.len() != b.len() {
        return false;
    }
    let mut i: usize = 0;
    while i < a.len()
        invariant
            i <= a.len(),
            a.len() == b.len(),
            forall|j: int| 0 <= j < i ==> a@[j] == b@[j],
        decreases a.len() - i,
    {
        if a[i] != b[i] {
            return false;
        }
        i = i + 1;
    }
    assert(a@ =~= b@);
    true
}

impl PortDescriptor {
    /// True exactly when both descriptors say the same.
    pub fn same(&self, other: &PortDescriptor) -> (same: bool)
        ensures
            same == (self@ == other@),
    {
        let name = self.name == other.name;
        let dimensions = same_dimensions(&self.dimensions, &other.dimensions);
        let dtype = self.dtype == other.dtype;
        assert(name && dimensions && dtype ==> self@ =~= other@);
        name && dimensions && dtype
    }
}

impl Clone for PortDescriptor {
    fn clone(&self) -> (copy: PortDescriptor)
        ensures
            copy@ == self@,
    {
        let mut dimensions: Vec<DimensionDescriptor> = Vec::new();
        let mut i: usize = 0;
        while i < self.dimensions.len()
            invariant
                i <= self.dimensions.len(),
                dimensions@ == self.dimensions@.take(i as int),
            decreases self.dimensions.len() - i,
        {
            dimensions.push(self.dimensions[i]);
            i = i + 1;
        }
        assert(dimensions@ =~= self.dimensions@);
        PortDescriptor { name: self.name.clone(), dimensions, dtype: self.dtype }
    }
}

/// True exactly when two bundles list the same ports.
pub fn same_bundle(a: &Vec<PortDescriptor>, b: &Vec<PortDescriptor>) -> (same: bool)
    ensures
        same == (bundle_view(a@) == bundle_view(b@)),
{
    if a.len() != b.len() {
        assert(bundle_view(a@).len() != bundle_view(b@).len());
        return false;
    }
    let mut i: usize = 0;
    while i < a.len()
        invariant
            i <= a.len(),
            a.len() == b.len(),
            forall|j: int| 0 <= j < i ==> a@[j]@ == b@[j]@,
        decreases a.len() - i,
    {
        if !a[i].same(&b[i]) {
            assert(bundle_view(a@)[i as int] != bundle_view(b@)[i as int]);
            return false;
        }
        i = i + 1;
    }
    assert(bundle_view(a@) =~= bundle_view(b@));
    true
}

fn clone_bundle(ports: &Vec<PortDescriptor>) -> (copy: Vec<PortDescriptor>)
    ensures
        bundle_view(copy@) == bundle_view(ports@),
{
    let mut copy: Vec<PortDescriptor> = Vec::new();
    let mut i: usize = 0;
    while i < ports.len()
        invariant
            i <= ports.len(),
            copy.len() == i,
            forall|j: int| 0 <= j < i ==> copy@[j]@ == ports@[j]@,
        decreases ports.len() - i,
    {
        copy.push(ports[i].clone());
        i = i + 1;
    }
    assert(bundle_view(copy@) =~= bundle_view(ports@));
    copy
}

impl ContractDescriptor {
    /// True exactly when both descriptors say the same.
    pub fn same(&self, other: &ContractDescriptor) -> (same: bool)
        ensures
            same == (self@ == other@),
    {
        let inputs = same_bundle(&self.inputs, &other.inputs);
        let outputs = same_bundle(&self.outputs, &other.outputs);
        self.id == other.id && self.version == other.version && inputs && outputs
    }
}

impl Clone for ContractDescriptor {
    fn clone(&self) -> (copy: ContractDescriptor)
        ensures
            copy@ == self@,
    {
        ContractDescriptor {
            id: self.id,
            version: self.version,
            inputs: clone_bundle(&self.inputs),
            outputs: clone_bundle(&self.outputs),
        }
    }
}

} // verus!

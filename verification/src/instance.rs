//! Instances: a class and the fields of the one object.

use vstd::prelude::*;
use crate::environment::Bindings;
use crate::object::{Object, ObjectView};

verus! {

/// What carries fields that a program can read and write by name: instances,
/// and classes too.
pub trait IsInstance {

}

/// An instance: the place of its class, and its fields.
#[derive(Debug, Clone)]
pub struct Instance {
    pub class: usize,
    pub fields: Bindings<Object>,
}

/// What an [`Instance`] stands for.
pub struct InstanceView {
    pub class: usize,
    pub fields: Map<Seq<char>, ObjectView>,
}

impl DeepView for Instance {
    type V = InstanceView;

    open spec fn deep_view(&self) -> InstanceView {
        InstanceView { class: self.class, fields: self.fields.deep_view() }
    }
}

impl IsInstance for Instance {

}

impl Instance {
    /// An instance of the class at `class`, without fields.
    pub fn new(class: usize) -> (r: Instance)
        ensures
            r.deep_view() == (InstanceView {
                class,
                fields: Map::<Seq<char>, ObjectView>::empty(),
            }),
    {
        Instance { class, fields: Bindings::new() }
    }
}

} // verus!

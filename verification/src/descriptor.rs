//! Role descriptors: the static metadata that distinguishes the two owner
//! flavors. An owner is either an application (its dependents are agents) or
//! a generic parent (its dependents are children). The descriptor fixes the
//! default accessor base name, the capability trait's name and the names of
//! its three associated types.

use vstd::prelude::*;

verus! {

/// Which owner flavor a relationship names.
#[derive(Clone, Copy, PartialEq, Eq, Structural, Debug)]
pub enum Role {
    Application,
    Parent,
}

/// The human label of the role.
pub open spec fn spec_kind(r: Role) -> Seq<char> {
    match r {
        Role::Application => "application"@,
        Role::Parent => "parent"@,
    }
}

/// The default accessor base name of the role.
pub open spec fn spec_base_name(r: Role) -> Seq<char> {
    match r {
        Role::Application => "app"@,
        Role::Parent => "parent"@,
    }
}

/// The name of the capability trait the dependent side implements.
pub open spec fn spec_child_trait_name(r: Role) -> Seq<char> {
    match r {
        Role::Application => "Agent"@,
        Role::Parent => "Child"@,
    }
}

/// The associated type naming the strong accessor's return type.
pub open spec fn spec_rc_assoc_type(r: Role) -> Seq<char> {
    match r {
        Role::Application => "RcApp"@,
        Role::Parent => "RcParent"@,
    }
}

/// The associated type naming the weak reference type.
pub open spec fn spec_weak_assoc_type(r: Role) -> Seq<char> {
    match r {
        Role::Application => "WeakApp"@,
        Role::Parent => "WeakParent"@,
    }
}

/// The associated type used only by the builder shortcut.
pub open spec fn spec_fxp_assoc_type(r: Role) -> Seq<char> {
    match r {
        Role::Application => "FXPApp"@,
        Role::Parent => "FXPParent"@,
    }
}

/// The compile-time descriptor of one role pair.
#[derive(Clone, Copy, PartialEq, Eq, Structural, Debug)]
pub struct RoleDescriptor {
    pub role: Role,
}

/// The descriptor of the application/agent pair.
pub struct AppDescriptor {}

/// The descriptor of the parent/child pair.
pub struct ParentDescriptor {}

impl AppDescriptor {
    /// The role descriptor of the application/agent pair.
    pub fn descriptor() -> (d: RoleDescriptor)
        ensures
            d.role == Role::Application,
    {
        RoleDescriptor { role: Role::Application }
    }
}

impl ParentDescriptor {
    /// The role descriptor of the parent/child pair.
    pub fn descriptor() -> (d: RoleDescriptor)
        ensures
            d.role == Role::Parent,
    {
        RoleDescriptor { role: Role::Parent }
    }
}

impl RoleDescriptor {
    /// The human label of the role, e.g. for diagnostics.
    pub fn kind(&self) -> (r: String)
        ensures
            r@ == spec_kind(self.role),
    {
        match self.role {
            Role::Application => "application".to_owned(),
            Role::Parent => "parent".to_owned(),
        }
    }

    /// The default accessor base name.
    pub fn base_name(&self) -> (r: String)
        ensures
            r@ == spec_base_name(self.role),
    {
        match self.role {
            Role::Application => "app".to_owned(),
            Role::Parent => "parent".to_owned(),
        }
    }

    /// The capability trait the dependent implements.
    pub fn child_trait_name(&self) -> (r: String)
        ensures
            r@ == spec_child_trait_name(self.role),
    {
        match self.role {
            Role::Application => "Agent".to_owned(),
            Role::Parent => "Child".to_owned(),
        }
    }

    /// The associated type naming the strong accessor's return type.
    pub fn rc_assoc_type(&self) -> (r: String)
        ensures
            r@ == spec_rc_assoc_type(self.role),
    {
        match self.role {
            Role::Application => "RcApp".to_owned(),
            Role::Parent => "RcParent".to_owned(),
        }
    }

    /// The associated type naming the weak reference type.
    pub fn weak_assoc_type(&self) -> (r: String)
        ensures
            r@ == spec_weak_assoc_type(self.role),
    {
        match self.role {
            Role::Application => "WeakApp".to_owned(),
            Role::Parent => "WeakParent".to_owned(),
        }
    }

    /// The associated type used only by the builder shortcut.
    pub fn fxp_assoc_type(&self) -> (r: String)
        ensures
            r@ == spec_fxp_assoc_type(self.role),
    {
        match self.role {
            Role::Application => "FXPApp".to_owned(),
            Role::Parent => "FXPParent".to_owned(),
        }
    }
}

/// Which reference-counting primitive pair the synthesized code uses:
/// atomically counted and thread-shareable, or single-threaded.
#[derive(Clone, Copy, PartialEq, Eq, Structural, Debug)]
pub enum SyncMode {
    Sync,
    Nonsync,
}

} // verus!

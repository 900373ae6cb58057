//! The runtime capability traits that synthesized code implements. An owner
//! conforms to [`Parent`] (and an application additionally to
//! [`Application`]); a dependent conforms to [`Child`] or, when its owner is
//! the application, to [`Agent`]. The strong accessor's return type is the
//! implementation's choice, made by the upgrade policy at synthesis time.

use vstd::prelude::*;

verus! {

/// Declares owner structs in owner/dependent relationships.
pub trait Parent {
    /// Weak ref-count type for the owner to hold a reference to itself.
    type WeakSelf;

    /// Return a weak reference to the owner itself, for seeding dependent
    /// builders.
    fn __fxplus_myself_downgrade(&self) -> Self::WeakSelf;
}

/// Declares dependent structs in parent/child relationships.
pub trait Child {
    /// The strong accessor's return type: the strong reference to the
    /// parent, wrapped as the upgrade policy dictates.
    type RcParent;

    /// The weak reference type to the parent.
    type WeakParent;

    /// The construction-time reference type used by the builder shortcut.
    type FXPParent;

    /// Return a strong reference to the parent, per the upgrade policy.
    fn parent(&self) -> Self::RcParent;

    /// Return a weak reference to the parent; always succeeds.
    fn parent_downgrade(&self) -> Self::WeakParent;

    /// Turn the weak reference handed in by a builder into the stored form.
    fn __fxplus_parent(parent: Self::WeakParent) -> Self::FXPParent;
}

/// Declares application structs: the owner role whose dependents are
/// agents.
pub trait Application: Parent {

}

/// Declares agents that can access the application. Structurally the same
/// capability as [`Child`], under names that keep the two relationships a
/// type may take apart.
pub trait Agent {
    /// The strong accessor's return type: the strong reference to the
    /// application, wrapped as the upgrade policy dictates.
    type RcApp;

    /// The weak reference type to the application.
    type WeakApp;

    /// The construction-time reference type used by the builder shortcut.
    type FXPApp;

    /// Return a strong reference to the application, per the upgrade
    /// policy.
    fn app(&self) -> Self::RcApp;

    /// Return a weak reference to the application; always succeeds.
    fn app_downgrade(&self) -> Self::WeakApp;

    /// Turn the weak reference handed in by a builder into the stored form.
    fn __fxplus_app(app: Self::WeakApp) -> Self::FXPApp;
}

} // verus!

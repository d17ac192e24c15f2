//! Backend features and the contexts they are built from.
//!
//! A backend is a set of optional features (listing, flagging, copying
//! messages, ...), each built on demand from the backend's context.

use vstd::prelude::*;

verus! {

/// Marks a backend context.
pub trait BackendContext {}

/// A context that holds a subcontext of type `C`.
pub trait GetBackendSubcontext<C: BackendContext> {
    fn get_subcontext(&self) -> &C;
}

/// A context that may hold a subcontext of type `C`.
pub trait FindBackendSubcontext<C: BackendContext> {
    fn find_subcontext(&self) -> Option<&C>;
}

/// Builds a backend feature from a context, if a builder function is set.
#[derive(Clone, Debug)]
pub struct BackendFeatureBuilder<F> {
    func: Option<F>,
}

impl<F> BackendFeatureBuilder<F> {
    /// The builder function, if any.
    pub closed spec fn func(&self) -> Option<F> {
        self.func
    }

    /// A builder that builds features with `func`.
    pub fn new(func: F) -> (r: BackendFeatureBuilder<F>)
        ensures
            r.func() == Some(func),
    {
        BackendFeatureBuilder { func: Some(func) }
    }

    /// A builder that builds no feature.
    pub fn none() -> (r: BackendFeatureBuilder<F>)
        ensures
            r.func() is None,
    {
        BackendFeatureBuilder { func: None }
    }

    /// The builder function, if any.
    pub fn into_option(self) -> (r: Option<F>)
        ensures
            r == self.func(),
    {
        self.func
    }

    /// Builds the feature from `context`: none without a builder
    /// function, else what the function returns for `context`.
    pub fn build_into_feature<C, T>(self, context: &C) -> (r: Option<T>) where F: Fn(&C) -> Option<T>
        requires
            self.func() matches Some(f) ==> f.requires((context,)),
        ensures
            self.func() is None ==> r is None,
            self.func() matches Some(f) ==> f.ensures((context,), r),
    {
        match self.func {
            Some(f) => f(context),
            None => None,
        }
    }
}

impl<F> Default for BackendFeatureBuilder<F> {
    fn default() -> (r: BackendFeatureBuilder<F>)
        ensures
            r.func() is None,
    {
        BackendFeatureBuilder::none()
    }
}

/// How a backend initializes one feature.
#[derive(Clone, Debug)]
pub enum FeatureConfiguration<F> {
    /// The feature is disabled.
    FeatureDisabled,
    /// The feature comes from the context, if the context has it.
    Default,
    /// The feature comes from this builder; if it builds nothing, from the
    /// context.
    Override(BackendFeatureBuilder<F>),
}

impl<F> Default for FeatureConfiguration<F> {
    fn default() -> (r: FeatureConfiguration<F>)
        ensures
            r is Default,
    {
        FeatureConfiguration::Default
    }
}

impl<F> FeatureConfiguration<F> {
    /// A disabled feature.
    pub fn with_feature_disabled() -> (r: FeatureConfiguration<F>)
        ensures
            r is FeatureDisabled,
    {
        FeatureConfiguration::FeatureDisabled
    }

    /// A feature built by `builder`.
    pub fn override_with(builder: BackendFeatureBuilder<F>) -> (r: FeatureConfiguration<F>)
        ensures
            r == FeatureConfiguration::Override(builder),
    {
        FeatureConfiguration::Override(builder)
    }

    /// The builder of the feature, given the one the context offers.
    pub fn build_into_builder(self, context_default: BackendFeatureBuilder<F>) -> (r:
        BackendFeatureBuilder<F>)
        ensures
            r.func() == match self {
                FeatureConfiguration::FeatureDisabled => None,
                FeatureConfiguration::Default => context_default.func(),
                FeatureConfiguration::Override(b) => match b.func() {
                    Some(f) => Some(f),
                    None => context_default.func(),
                },
            },
    {
        match self {
            FeatureConfiguration::FeatureDisabled => BackendFeatureBuilder::none(),
            FeatureConfiguration::Default => context_default,
            FeatureConfiguration::Override(b) => match b.into_option() {
                Some(f) => BackendFeatureBuilder::new(f),
                None => context_default,
            },
        }
    }
}

} // verus!

//! Local execution dependencies.

use vstd::prelude::*;
use crate::apps::manager::AppManager;
use crate::config::Config;

verus! {

/// Dependencies available to host-side operation implementations.
#[derive(Debug)]
pub struct ExecutionContext<'a> {
    pub config: &'a Config,
    pub app_manager: Option<&'a AppManager>,
}

impl<'a> ExecutionContext<'a> {
    /// Access the loaded configuration.
    pub fn config(&self) -> (r: &Config)
        ensures
            *r == *self.config,
    {
        self.config
    }

    /// Execute a function with the supplied or lazily loaded application manager. A manager
    /// is loaded only where none is supplied.
    pub fn with_app_manager<
        T,
        E,
        L: FnOnce() -> Result<AppManager, E>,
        F: FnOnce(&AppManager) -> Result<T, E>,
    >(&self, load: L, operation: F) -> (r: Result<T, E>)
        requires
            match self.app_manager {
                Some(manager) => call_requires(operation, (manager,)),
                None => call_requires(load, ()) && forall|manager: AppManager|
                    #[trigger] call_ensures(load, (), Ok::<AppManager, E>(manager))
                        ==> call_requires(operation, (&manager,)),
            },
        ensures
            match self.app_manager {
                Some(manager) => call_ensures(operation, (manager,), r),
                None => {
                    ||| exists|manager: AppManager| #[trigger]
                        call_ensures(load, (), Ok::<AppManager, E>(manager)) && call_ensures(
                            operation,
                            (&manager,),
                            r,
                        )
                    ||| r matches Err(e) && call_ensures(load, (), Err::<AppManager, E>(e))
                },
            },
    {
        match self.app_manager {
            Some(manager) => operation(manager),
            None => match load() {
                Ok(manager) => operation(&manager),
                Err(e) => Err(e),
            },
        }
    }
}

/// Executes operations directly on the host.
///
/// This executor assumes that its caller has already authorized the request. A daemon
/// must enforce its admission policy before invoking it.
#[derive(Debug)]
pub struct LocalExecutor<'a> {
    pub context: ExecutionContext<'a>,
}

impl<'a> LocalExecutor<'a> {
    /// Create a local executor using the loaded configuration.
    pub fn new(config: &'a Config) -> (r: Self)
        ensures
            *r.context.config == *config,
            r.context.app_manager is None,
    {
        LocalExecutor { context: ExecutionContext { config, app_manager: None } }
    }

    /// Reuse an application manager whose lifecycle is scoped by the caller.
    pub fn with_app_manager(self, app_manager: &'a AppManager) -> (r: Self)
        ensures
            *r.context.config == *self.context.config,
            r.context.app_manager == Some(app_manager),
    {
        LocalExecutor {
            context: ExecutionContext {
                config: self.context.config,
                app_manager: Some(app_manager),
            },
        }
    }
}

} // verus!

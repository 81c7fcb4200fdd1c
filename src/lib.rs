//! Multi-tenant subscription handling for platform microservices: the
//! registry of subscribed tenants, the reconciliation of that registry with
//! the platform's subscriber list, and the resolution of request credentials
//! to a tenant's context.

pub mod inventory;
pub mod platform;
pub mod registry;
pub mod microservice_subscription;

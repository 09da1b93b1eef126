//! What the pages of the application decide, apart from how requests reach
//! them and how answers are rendered.

pub mod login;
pub mod newsletters;
pub mod subscription_confirmation;
pub mod subscriptions;

//! The handlers of the application's pages.

pub mod css;
pub mod home;
pub mod images;
pub mod login;
pub mod pages;

pub use css::CssHandler;
pub use home::HomeHandler;
pub use login::GetLoginHandler;
pub use login::PostLoginHandler;

//! The windows: what they show and what is made of what the user does in them.

pub mod about;
pub mod drop_down;
pub mod editor;
pub mod form;
pub mod info;
pub mod otp;
pub mod pages;
pub mod window;

//! Verified core of the Athena OS welcome application: role selection and
//! its configuration file, operating-system detection from `os-release`,
//! display discovery, theme settings and page navigation.

pub mod text;
pub mod roles;
pub mod os;
pub mod probe;
pub mod display;
pub mod navigation;
pub mod theme;

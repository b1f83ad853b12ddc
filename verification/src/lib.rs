//! Pie shop service logic: the catalogue indexes, the label bit vectors used
//! for recommendations, the purchase rules, the store keys and the replies.

pub mod bits;
pub mod cache;
pub mod catalog;
pub mod endpoints;
pub mod keys;
pub mod pies;
pub mod purchase;
pub mod recommend;
pub mod response;
pub mod text;

//! The free model of the campus network. Its token is issued and renewed by the host
//! and comes with the settings; here stand the rest of what a request needs.

use vstd::prelude::*;

verus! {

/// Where the OpenAI compatible service is.
pub const BASE: &'static str = "https://madmodel.cs.tsinghua.edu.cn/v1";

/// The free model, with a context of 150k.
pub const MODEL: &'static str = "DeepSeek-V4-Flash-0731";

} // verus!

use vstd::prelude::*;

verus! {

/// Opaque argument slot of the C wire ABI.
#[allow(non_camel_case_types)]
pub struct wl_argument;

/// Opaque display handle of the C wire ABI.
#[allow(non_camel_case_types)]
pub struct wl_display;

/// Opaque event queue handle of the C wire ABI.
#[allow(non_camel_case_types)]
pub struct wl_event_queue;

/// Opaque proxy handle of the C wire ABI.
#[allow(non_camel_case_types)]
pub struct wl_proxy;

/// A 24.8 signed fixed-point number as it travels on the wire.
#[allow(non_camel_case_types)]
pub type wl_fixed_t = i32;

} // verus!

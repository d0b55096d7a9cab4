//! The navigator persona: the identity the engine reports through `navigator`
//! when the embedder installs one. Absent a persona, consumers fall back to
//! their compile-time constants.
//!
//! The slot that holds the persona is passed in by the caller, who owns its
//! storage and its locking.

use vstd::prelude::*;

verus! {

/// The engine-side persona projection. The embedder converts its own persona
/// description into this type before installing it; the two stay distinct, so
/// that the embedder owns validation and this module stays a plain data carrier.
#[derive(Debug)]
pub struct Persona {
    pub platform: String,
    pub app_version: String,
    pub hardware_concurrency: u8,
    pub device_memory_gb: Option<u8>,
    pub color_depth: u16,
    pub gpu_vendor: String,
    pub gpu_renderer: String,
    pub gpu_unmasked_vendor: String,
    pub gpu_unmasked_renderer: String,
    pub noise_seed: u64,
}

impl Clone for Persona {
    fn clone(&self) -> (copy: Self)
        ensures
            copy == *self,
    {
        Persona {
            platform: self.platform.clone(),
            app_version: self.app_version.clone(),
            hardware_concurrency: self.hardware_concurrency,
            device_memory_gb: self.device_memory_gb,
            color_depth: self.color_depth,
            gpu_vendor: self.gpu_vendor.clone(),
            gpu_renderer: self.gpu_renderer.clone(),
            gpu_unmasked_vendor: self.gpu_unmasked_vendor.clone(),
            gpu_unmasked_renderer: self.gpu_unmasked_renderer.clone(),
            noise_seed: self.noise_seed,
        }
    }
}

/// Installs `persona` in `slot`, in place of whatever was there.
pub fn set(slot: &mut Option<Persona>, persona: Persona)
    ensures
        *final(slot) == Some(persona),
{
    *slot = Some(persona);
}

/// Reads the persona installed in `slot`, if there is one.
///
/// The persona is copied out rather than borrowed: it is small and read
/// rarely, and an owned value keeps no lock on the slot.
pub fn get(slot: &Option<Persona>) -> (persona: Option<Persona>)
    ensures
        persona == *slot,
{
    match slot {
        Some(persona) => Some(persona.clone()),
        None => None,
    }
}

/// The contents of a slot after the personas of `installs` were set in order.
pub open spec fn after_installs(slot: Option<Persona>, installs: Seq<Persona>) -> Option<Persona>
    decreases installs.len(),
{
    if installs.len() == 0 {
        slot
    } else {
        after_installs(Some(installs[0]), installs.drop_first())
    }
}

/// The last persona set is the one that is read; a slot that nothing was set
/// in reads as it started.
pub proof fn law_last_install_wins(slot: Option<Persona>, installs: Seq<Persona>)
    ensures
        installs.len() > 0 ==> after_installs(slot, installs) == Some(installs.last()),
        installs.len() == 0 ==> after_installs(slot, installs) == slot,
    decreases installs.len(),
{
    if installs.len() > 0 {
        law_last_install_wins(Some(installs[0]), installs.drop_first());
    }
}

} // verus!

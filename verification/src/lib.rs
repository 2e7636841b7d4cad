//! Bare-metal diagnostics and console subsystem: a memory-mapped text console
//! writer with code-page translation and line scrolling, a serial diagnostic
//! channel, a host-exit protocol, a panic router, and a minimal test harness.
//!
//! The console writer is an explicitly constructed owner of the display
//! surface, passed by handle to every call site. The process-wide singleton
//! around it — a lazily constructed writer behind a spin lock with no
//! blocking recovery — is owned by the surrounding program, as are the
//! physical port stores and the halt loops; everything those shells decide or
//! compute is stated and proved here.

pub mod harness;
pub mod host_exit;
pub mod panic_router;
pub mod serial;
pub mod vga_buffer;

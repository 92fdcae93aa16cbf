//! The verified core of a small single-processor kernel.
//!
//! [`task`] is the cooperative scheduler: task identifiers, tasks, the
//! executor with its ready queue and wake handles, and the scancode queue
//! that the keyboard interrupt handler fills and one task drains.
//! [`framebuffer`] writes and moves pixels in a linear frame buffer,
//! [`renderer`] says where the text cursor goes and what the text buffer
//! holds, and [`interrupt`] names the interrupt vectors.
//!
//! Every step of the scheduling protocol is a function on state that its
//! caller holds exclusively, so each step is atomic by construction. The
//! kernel that embeds the library decides how an interrupt handler gets that
//! access; it also owns everything that touches the hardware.
pub mod framebuffer;
pub mod interrupt;
pub mod renderer;
pub mod task;

//! A minimal multi-client text broadcast service, verified.
//!
//! Clients authenticate with a username/password pair (registering on first
//! use); afterwards every non-blank chunk a client sends is relayed to every
//! other connected client. The crate holds the verified core: the credential
//! store, the connection registry with its broadcast fan-out, the
//! per-connection session state machine, and the text handling they share.
//! Transport, persistence I/O and signal handling are left to the embedding
//! program.

mod assoc;
mod credentials;
mod laws;
mod registry;
mod session;
mod text;

pub use assoc::lookup;
pub use assoc::unique_keys;
pub use credentials::AuthOutcome;
pub use credentials::CredentialRecord;
pub use credentials::CredentialStore;
pub use credentials::auth_outcome_of;
pub use credentials::records_view;
pub use credentials::store_after_auth;
pub use laws::lemma_auth_correctness;
pub use laws::lemma_broadcast_exclusion;
pub use laws::lemma_closed_terminal;
pub use laws::lemma_deregister_excludes;
pub use laws::lemma_deregister_on_close_only;
pub use laws::lemma_registration_unique;
pub use laws::lemma_store_after_auth_wf;
pub use registry::ClientHandle;
pub use registry::Delivery;
pub use registry::Registry;
pub use registry::deregister_spec;
pub use registry::handles_view;
pub use registry::message_seq;
pub use registry::register_spec;
pub use registry::targets_spec;
pub use session::EventView;
pub use session::SessionEvent;
pub use session::SessionState;
pub use session::StateView;
pub use session::Step;
pub use session::StepView;
pub use session::new_session;
pub use session::notice_line;
pub use session::notice_seq;
pub use session::quiet_step;
pub use session::step;
pub use session::step_spec;
pub use text::format_message;
pub use text::is_blank;
pub use text::is_blank_seq;
pub use text::lemma_blank_iff_trim_empty;
pub use text::lossy_decode;
pub use text::str_eq;
pub use text::trim;
pub use text::trim_spec;

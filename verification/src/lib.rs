mod channel;
mod message;
mod registry;
mod room;
mod session;
mod wire;

pub use message::Message;
pub use registry::Registry;
pub use room::Client;
pub use room::Room;
pub use session::handle_frame;
pub use session::join_room;
pub use session::leave_room;
pub use session::send_to_senders;
pub use session::FrameOutcome;
pub use session::JoinOutcome;
pub use session::LeaveOutcome;
pub use wire::build_new_admin_msg;
pub use wire::build_typing_msg;

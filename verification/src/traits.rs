/// Communication trait.
mod communication;
pub use communication::CloneableCommunication;
pub use communication::Communication;
pub use communication::CommunicationBuilder;
pub use communication::Connectable;

/// Packet parser trait.
mod packet_parser;
pub use packet_parser::PacketParser;

/// Configuration trait.
mod configuration;
pub use configuration::Configurable;

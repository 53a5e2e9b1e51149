//! The SNMP message layers, from variable bindings up to whole messages.

pub mod obj_ident;
pub mod scoped_pdu;
pub mod unsigned;
pub mod var_bind;
pub mod v2c_message;

//! Low-level Ws6in1 protocol: fixed-layout frames and commands.
pub mod any;
pub mod cmd;
pub mod data;
pub mod frame;
pub mod round_trip;

pub use any::{AnyWs6in1Message, AnyWs6in1MessageBase, AnyWs6in1MessageHeapless};
pub use cmd::{Ws6in1SetDate, Ws6in1SetTime};
pub use data::{
    Ws6in1DataFrame, Ws6in1DataFrameBase, Ws6in1DataFrameHeapless, Ws6in1DataHeader,
    Ws6in1Payload, Ws6in1PayloadBase, Ws6in1PayloadHeapless,
};
pub use frame::{Ws6in1Footer, Ws6in1Serde};

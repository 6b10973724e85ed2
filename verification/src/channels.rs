pub mod delay_channel;

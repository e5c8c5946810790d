//! Verified core of an MS/TP <-> BACnet/IP gateway.
pub mod crc;
pub mod mstp_types;
pub mod state_machine;
pub mod text;
pub mod bytes;
pub mod npdu;
pub mod local_device;
pub mod local_dispatch;
pub mod transaction;
pub mod mstp_frame;
pub mod mstp_driver;
pub mod router_msgs;
pub mod segmentation;
pub mod gateway_tables;
pub mod gateway;
pub mod config;
pub mod bip;
pub mod rx_dispatch;
pub mod form;
pub mod web;
pub mod display;
pub mod pages;
pub mod schedule;

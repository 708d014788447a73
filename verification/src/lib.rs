//! The core of a reverse proxy that forwards HTTP requests to the pods of a
//! Kubernetes cluster through port-forward tunnels.
//!
//! The library decides and keeps the books; it does no I/O. It reads the
//! host of a request as a target (`target`), keeps one idle connection per
//! target (`connection_dispatcher`), says when a request is tried again and
//! when it is given up (`forwarding_service`), and keeps the bytes of a
//! request body so that another attempt can send them again (`reply_body`,
//! `buf_list`). A program around it opens the tunnels, sends the requests
//! and sleeps between the attempts.
pub mod buf_list;
pub mod chunk;
pub mod connection_dispatcher;
pub mod forwarding_service;
pub mod kubernetes_api_service;
pub mod mocks_reader;
pub mod print_ascii;
pub mod reply_body;
pub mod size_hint;
pub mod target;

pub mod booking_model;
pub mod dog_model;
pub mod owner_model;

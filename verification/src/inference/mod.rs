pub mod tflite;
